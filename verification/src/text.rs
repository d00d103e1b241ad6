//! Character-level encoding and parsing shared by the pin and watcher logic:
//! decimal rendering of pin numbers and levels, whitespace trimming, decimal
//! parsing of value-file content, and the digit-one test used on change
//! events.

use vstd::prelude::*;

verus! {

/// The ASCII whitespace characters stripped from the ends of value-file
/// content before it is interpreted.
pub open spec fn is_space(c: char) -> bool {
    c as u32 == 32 || c as u32 == 9 || c as u32 == 10 || c as u32 == 13 || c as u32 == 12
}

/// A decimal digit character.
pub open spec fn is_dec_digit(c: char) -> bool {
    48 <= c as u32 <= 57
}

/// The numeric value of a decimal digit character.
pub open spec fn digit_of(c: char) -> int {
    c as u32 - 48
}

/// The digit character for a value below ten.
pub open spec fn digit_char(d: int) -> char {
    if d == 0 {
        '0'
    } else if d == 1 {
        '1'
    } else if d == 2 {
        '2'
    } else if d == 3 {
        '3'
    } else if d == 4 {
        '4'
    } else if d == 5 {
        '5'
    } else if d == 6 {
        '6'
    } else if d == 7 {
        '7'
    } else if d == 8 {
        '8'
    } else {
        '9'
    }
}

/// The decimal rendering of a natural number, most significant digit first,
/// without leading zeros.
pub open spec fn dec_digits(n: nat) -> Seq<char>
    decreases n,
{
    if n < 10 {
        seq![digit_char(n as int)]
    } else {
        dec_digits(n / 10).push(digit_char((n % 10) as int))
    }
}

/// The numeric value of a digit sequence read as a decimal numeral.
pub open spec fn dec_value(s: Seq<char>) -> int
    decreases s.len(),
{
    if s.len() == 0 {
        0
    } else {
        dec_value(s.drop_last()) * 10 + digit_of(s.last())
    }
}

/// Every character of the sequence is a decimal digit.
pub open spec fn all_digits(s: Seq<char>) -> bool {
    forall|i: int| 0 <= i < s.len() ==> is_dec_digit(#[trigger] s[i])
}

/// Recognizes whitespace; the executable side of [`is_space`].
pub fn space_char(c: char) -> (r: bool)
    ensures
        r == is_space(c),
{
    let u = c as u32;
    u == 32 || u == 9 || u == 10 || u == 13 || u == 12
}

/// The single-character string for a digit value.
fn digit_str(d: u8) -> (s: &'static str)
    requires
        d < 10,
    ensures
        s@ == seq![digit_char(d as int)],
{
    proof {
        reveal_strlit("0");
        reveal_strlit("1");
        reveal_strlit("2");
        reveal_strlit("3");
        reveal_strlit("4");
        reveal_strlit("5");
        reveal_strlit("6");
        reveal_strlit("7");
        reveal_strlit("8");
        reveal_strlit("9");
    }
    if d == 0 {
        "0"
    } else if d == 1 {
        "1"
    } else if d == 2 {
        "2"
    } else if d == 3 {
        "3"
    } else if d == 4 {
        "4"
    } else if d == 5 {
        "5"
    } else if d == 6 {
        "6"
    } else if d == 7 {
        "7"
    } else if d == 8 {
        "8"
    } else {
        "9"
    }
}

/// Renders a pin number or level as the decimal text that is written to, or
/// names, a sysfs entry.
pub fn u8_to_decimal(n: u8) -> (s: String)
    ensures
        s@ == dec_digits(n as nat),
{
    let mut s = String::new();
    if n >= 100 {
        s.append(digit_str(n / 100));
    }
    if n >= 10 {
        s.append(digit_str((n / 10) % 10));
    }
    s.append(digit_str(n % 10));
    proof {
        assert(n / 10 / 10 == n / 100) by (bit_vector);
        assert(n / 100 < 10 && (n / 10) % 10 < 10 && n % 10 < 10) by (bit_vector);
        assert(n >= 10 ==> n / 10 >= 1) by (bit_vector);
        assert(n >= 100 ==> n / 10 >= 10) by (bit_vector);
        assert(n < 100 ==> n / 10 < 10) by (bit_vector);
        assert(n >= 10 ==> (n / 10) % 10 == (n as nat / 10) % 10);
        if n < 10 {
            assert(s@ == dec_digits(n as nat));
        } else if n < 100 {
            assert(dec_digits(n as nat) == dec_digits(n as nat / 10).push(
                digit_char((n as nat % 10) as int),
            ));
            assert(s@ =~= dec_digits(n as nat));
        } else {
            assert(dec_digits(n as nat) == dec_digits(n as nat / 10).push(
                digit_char((n as nat % 10) as int),
            ));
            assert(dec_digits(n as nat / 10) == dec_digits(n as nat / 10 / 10).push(
                digit_char((n as nat / 10 % 10) as int),
            ));
            assert(s@ =~= dec_digits(n as nat));
        }
    }
    s
}

/// The sequence with its leading whitespace removed.
pub open spec fn trim_front(s: Seq<char>) -> Seq<char>
    decreases s.len(),
{
    if s.len() > 0 && is_space(s[0]) {
        trim_front(s.drop_first())
    } else {
        s
    }
}

/// The sequence with its trailing whitespace removed.
pub open spec fn trim_back(s: Seq<char>) -> Seq<char>
    decreases s.len(),
{
    if s.len() > 0 && is_space(s.last()) {
        trim_back(s.drop_last())
    } else {
        s
    }
}

/// The sequence with whitespace removed from both ends.
pub open spec fn trimmed(s: Seq<char>) -> Seq<char> {
    trim_back(trim_front(s))
}

/// What value-file content denotes: its trimmed text read as a decimal
/// numeral, if that text is non-empty, all digits, and in range.
pub open spec fn parsed_u8(s: Seq<char>) -> Option<u8> {
    let t = trimmed(s);
    if t.len() > 0 && all_digits(t) && dec_value(t) <= 255 {
        Some(dec_value(t) as u8)
    } else {
        None
    }
}

/// The bounds of the trimmed text within a string: `trimmed(s@)` is exactly
/// `s@.subrange(r.0, r.1)`.
pub(crate) fn trim_range(s: &str) -> (r: (usize, usize))
    ensures
        r.0 <= r.1 <= s@.len(),
        trimmed(s@) == s@.subrange(r.0 as int, r.1 as int),
{
    let len = s.unicode_len();
    let mut start: usize = 0;
    proof {
        assert(s@.skip(0) =~= s@);
    }
    while start < len
        invariant
            start <= len,
            len == s@.len(),
            trim_front(s@) == trim_front(s@.skip(start as int)),
        ensures
            start <= len,
            len == s@.len(),
            trim_front(s@) == s@.skip(start as int),
        decreases len - start,
    {
        let c = s.get_char(start);
        proof {
            assert(s@.skip(start as int)[0] == s@[start as int]);
        }
        if !space_char(c) {
            proof {
                assert(trim_front(s@.skip(start as int)) == s@.skip(start as int));
            }
            break ;
        }
        proof {
            assert(s@.skip(start as int).drop_first() =~= s@.skip(start as int + 1));
        }
        start = start + 1;
    }
    proof {
        assert(s@.skip(len as int) =~= Seq::<char>::empty());
        assert(s@.skip(start as int) =~= s@.subrange(start as int, len as int));
    }
    let mut end: usize = len;
    while end > start
        invariant
            start <= end <= len,
            len == s@.len(),
            trim_front(s@) == s@.skip(start as int),
            trim_back(s@.skip(start as int)) == trim_back(s@.subrange(start as int, end as int)),
        ensures
            start <= end <= len,
            len == s@.len(),
            trimmed(s@) == s@.subrange(start as int, end as int),
        decreases end,
    {
        let c = s.get_char(end - 1);
        proof {
            assert(s@.subrange(start as int, end as int).last() == s@[end - 1]);
        }
        if !space_char(c) {
            proof {
                assert(trim_back(s@.subrange(start as int, end as int)) == s@.subrange(
                    start as int,
                    end as int,
                ));
            }
            break ;
        }
        proof {
            assert(s@.subrange(start as int, end as int).drop_last() =~= s@.subrange(
                start as int,
                end as int - 1,
            ));
        }
        end = end - 1;
    }
    (start, end)
}

/// A shorter prefix of a digit sequence never denotes a larger value.
proof fn lemma_dec_value_prefix_le(s: Seq<char>, k: int)
    requires
        0 <= k <= s.len(),
        all_digits(s),
    ensures
        0 <= dec_value(s.subrange(0, k)),
        dec_value(s.subrange(0, k)) <= dec_value(s),
    decreases s.len() - k,
{
    lemma_dec_value_nonneg(s.subrange(0, k));
    if k == s.len() {
        assert(s.subrange(0, k) =~= s);
    } else {
        assert(s.subrange(0, k + 1).drop_last() =~= s.subrange(0, k));
        assert(s.subrange(0, k + 1).last() == s[k]);
        lemma_dec_value_nonneg(s.subrange(0, k + 1));
        lemma_dec_value_prefix_le(s, k + 1);
    }
}

/// A digit sequence denotes a value of at least zero.
proof fn lemma_dec_value_nonneg(s: Seq<char>)
    requires
        all_digits(s),
    ensures
        dec_value(s) >= 0,
    decreases s.len(),
{
    if s.len() > 0 {
        assert(all_digits(s.drop_last()));
        lemma_dec_value_nonneg(s.drop_last());
    }
}

/// Parses value-file content as the original read path does: trim both ends,
/// then read the remainder as a decimal numeral that must fit in a byte.
pub fn parse_u8(s: &str) -> (r: Option<u8>)
    ensures
        r == parsed_u8(s@),
{
    let (start, end) = trim_range(s);
    let ghost t = trimmed(s@);
    if start == end {
        proof {
            assert(t.len() == 0);
        }
        return None;
    }
    let mut i = start;
    let mut acc: u32 = 0;
    while i < end
        invariant
            start <= i <= end <= s@.len(),
            start < end,
            t == s@.subrange(start as int, end as int),
            t == trimmed(s@),
            all_digits(t.subrange(0, i - start)),
            acc == dec_value(t.subrange(0, i - start)),
            acc <= 255,
        decreases end - i,
    {
        let c = s.get_char(i);
        proof {
            assert(t[i - start] == s@[i as int]);
        }
        let u = c as u32;
        if u < 48 || u > 57 {
            proof {
                assert(!is_dec_digit(t[i - start]));
                assert(!all_digits(t));
            }
            return None;
        }
        let d = u - 48;
        proof {
            assert(t.subrange(0, i - start + 1).drop_last() =~= t.subrange(0, i - start));
            assert(t.subrange(0, i - start + 1).last() == t[i - start]);
        }
        acc = acc * 10 + d;
        if acc > 255 {
            proof {
                assert(all_digits(t.subrange(0, i - start + 1)));
                assert(dec_value(t.subrange(0, i - start + 1)) == acc);
                if all_digits(t) {
                    lemma_dec_value_prefix_le(t, i - start + 1);
                    assert(dec_value(t) > 255);
                }
            }
            return None;
        }
        i = i + 1;
    }
    proof {
        assert(t.subrange(0, end - start) =~= t);
    }
    Some(acc as u8)
}

/// 1 when the trimmed content contains the digit one, 0 otherwise: how the
/// watcher interprets a value file after a change event.
pub open spec fn event_level(s: Seq<char>) -> u8 {
    if trimmed(s).contains('1') {
        1
    } else {
        0
    }
}

/// Reads changed value-file content the way the watcher publishes it.
pub fn interpret_event(s: &str) -> (v: u8)
    ensures
        v == event_level(s@),
{
    let (start, end) = trim_range(s);
    let ghost t = trimmed(s@);
    let mut i = start;
    while i < end
        invariant
            start <= i <= end <= s@.len(),
            t == s@.subrange(start as int, end as int),
            forall|j: int| 0 <= j < i - start ==> t[j] != '1',
        ensures
            t.contains('1') <==> i < end,
            i <= end <= s@.len(),
        decreases end - i,
    {
        let c = s.get_char(i);
        proof {
            assert(t[i - start] == s@[i as int]);
        }
        if c as u32 == 49 {
            proof {
                assert('1' as u32 == 49);
                assert(c == '1');
                assert(t.contains('1'));
            }
            break ;
        }
        proof {
            assert(t[i - start] != '1');
        }
        i = i + 1;
    }
    if i < end {
        1
    } else {
        0
    }
}

} // verus!
