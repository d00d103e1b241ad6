//! The pin entity: one exported GPIO line, either an input or an output but
//! never both, with the decisions of its lifecycle — validation of levels,
//! judging the external export tool's outcome, the one-way transition to
//! watch capability, value-path computation and value-file parsing.
//!
//! Running the export tool and touching the filesystem happen outside this
//! crate; their outcomes are handed in as [`ToolOutcome`] values and every
//! decision about them is made, and verified, here.

use vstd::prelude::*;

use crate::errors::GpioError;
use crate::text::{dec_digits, parse_u8, parsed_u8, u8_to_decimal};

verus! {

/// A GPIO pin: an input that may become watch-capable, or an output.
/// The role is fixed at construction and never changes.
#[derive(Debug, Clone, Copy, PartialEq, Eq, Hash, Structural)]
pub enum GpioPin {
    Input { pin_number: u8, support_watch: bool },
    Output { pin_number: u8 },
}

/// What running the external pin-export tool produced: whether it exited
/// with status zero, and the text captured from its error stream.
#[derive(Debug)]
pub struct ToolOutcome {
    pub success: bool,
    pub diagnostic: String,
}

/// A level that may be written to a pin: the two digital states.
pub open spec fn valid_level(v: u8) -> bool {
    v == 0 || v == 1
}

/// The value-file path of pin `n` under a base directory:
/// `<base>/gpio<n>/value`.
pub open spec fn value_path_spec(base: Seq<char>, n: u8) -> Seq<char> {
    base + "/gpio"@ + dec_digits(n as nat) + "/value"@
}

impl GpioPin {
    /// The number of the physical line this pin stands for.
    pub open spec fn pin_number_spec(&self) -> u8 {
        match self {
            GpioPin::Input { pin_number, support_watch: _ } => *pin_number,
            GpioPin::Output { pin_number } => *pin_number,
        }
    }

    /// Whether the pin's role is input.
    pub open spec fn is_input(&self) -> bool {
        match self {
            GpioPin::Input { pin_number: _, support_watch: _ } => true,
            GpioPin::Output { pin_number: _ } => false,
        }
    }

    /// Whether edge notification has been enabled: possible only for inputs,
    /// an output is never watch-capable.
    pub open spec fn watch_capable(&self) -> bool {
        match self {
            GpioPin::Input { pin_number: _, support_watch } => *support_watch,
            GpioPin::Output { pin_number: _ } => false,
        }
    }

    /// Judges an export attempt for an input pin: a zero exit status yields
    /// the pin, not yet watch-capable; anything else is an export failure
    /// carrying the tool's diagnostic.
    pub fn new_input(pin_number: u8, export: ToolOutcome) -> (r: Result<GpioPin, GpioError>)
        ensures
            export.success ==> r == Ok::<GpioPin, GpioError>(
                (GpioPin::Input { pin_number, support_watch: false }),
            ),
            !export.success ==> r == Err::<GpioPin, GpioError>(
                GpioError::ExportError(export.diagnostic),
            ),
    {
        if export.success {
            Ok(GpioPin::Input { pin_number, support_watch: false })
        } else {
            Err(GpioError::ExportError(export.diagnostic))
        }
    }

    /// Judges an export attempt for an output pin. A default level outside
    /// {0, 1} is rejected outright — callers check levels with
    /// [`GpioPin::check_level`] before running the tool, so an invalid
    /// default causes no side effect anywhere.
    pub fn new_output(pin_number: u8, default: u8, export: ToolOutcome) -> (r: Result<
        GpioPin,
        GpioError,
    >)
        ensures
            !valid_level(default) ==> r == Err::<GpioPin, GpioError>(GpioError::InvalidArgument),
            valid_level(default) && export.success ==> r == Ok::<GpioPin, GpioError>(
                (GpioPin::Output { pin_number }),
            ),
            valid_level(default) && !export.success ==> r == Err::<GpioPin, GpioError>(
                GpioError::ExportError(export.diagnostic),
            ),
    {
        if default != 0 && default != 1 {
            return Err(GpioError::InvalidArgument);
        }
        if export.success {
            Ok(GpioPin::Output { pin_number })
        } else {
            Err(GpioError::ExportError(export.diagnostic))
        }
    }

    /// Rejects a level outside {0, 1} with `InvalidArgument`; the check every
    /// write and every output default goes through before any file is
    /// touched.
    pub fn check_level(value: u8) -> (r: Result<(), GpioError>)
        ensures
            valid_level(value) ==> r == Ok::<(), GpioError>(()),
            !valid_level(value) ==> r == Err::<(), GpioError>(GpioError::InvalidArgument),
    {
        if value == 0 || value == 1 {
            Ok(())
        } else {
            Err(GpioError::InvalidArgument)
        }
    }

    /// Whether edge configuration may even be attempted: it is refused
    /// unconditionally for an output pin, before the external tool runs.
    pub fn check_watch_supported(&self) -> (r: Result<(), GpioError>)
        ensures
            self.is_input() ==> r == Ok::<(), GpioError>(()),
            !self.is_input() ==> r == Err::<(), GpioError>(GpioError::UnsupportedOperation),
    {
        match self {
            GpioPin::Input { .. } => Ok(()),
            GpioPin::Output { .. } => Err(GpioError::UnsupportedOperation),
        }
    }

    /// Applies the outcome of the external tool's edge-configuration mode.
    /// On an output pin this fails with `UnsupportedOperation` and changes
    /// nothing. On an input pin, a successful run makes the pin
    /// watch-capable — its only mutable transition, never reversed — and a
    /// failed run changes nothing and surfaces the tool's diagnostic.
    pub fn enable_watch(&mut self, edge: ToolOutcome) -> (r: Result<(), GpioError>)
        ensures
            !old(self).is_input() ==> r == Err::<(), GpioError>(GpioError::UnsupportedOperation)
                && *final(self) == *old(self),
            old(self).is_input() && edge.success ==> r == Ok::<(), GpioError>(()) && *final(self)
                == (GpioPin::Input {
                pin_number: old(self).pin_number_spec(),
                support_watch: true,
            }),
            old(self).is_input() && !edge.success ==> r == Err::<(), GpioError>(
                GpioError::ExportError(edge.diagnostic),
            ) && *final(self) == *old(self),
    {
        let is_input = match &*self {
            GpioPin::Input { .. } => true,
            GpioPin::Output { .. } => false,
        };
        if !is_input {
            return Err(GpioError::UnsupportedOperation);
        }
        if edge.success {
            let n = self.get_pin_number();
            *self = GpioPin::Input { pin_number: n, support_watch: true };
            Ok(())
        } else {
            Err(GpioError::ExportError(edge.diagnostic))
        }
    }

    /// The path of this pin's value file under the given base directory.
    /// Pure path computation: it neither touches the filesystem nor proves
    /// that the pin is exported.
    pub fn get_value_path(&self, gpio_dir: &str) -> (p: String)
        ensures
            p@ == value_path_spec(gpio_dir@, self.pin_number_spec()),
    {
        let mut p = String::from_str(gpio_dir);
        p.append("/gpio");
        let num = u8_to_decimal(self.get_pin_number());
        p.append(num.as_str());
        p.append("/value");
        p
    }

    /// The pin number.
    pub fn get_pin_number(&self) -> (n: u8)
        ensures
            n == self.pin_number_spec(),
    {
        match self {
            GpioPin::Input { pin_number, support_watch: _ } => *pin_number,
            GpioPin::Output { pin_number } => *pin_number,
        }
    }

    /// Whether the pin is watch-capable. Enabled by a successful
    /// [`GpioPin::enable_watch`] on an input pin; always false for outputs.
    pub fn support_watch(&self) -> (b: bool)
        ensures
            b == self.watch_capable(),
    {
        match self {
            GpioPin::Input { pin_number: _, support_watch } => *support_watch,
            GpioPin::Output { pin_number: _ } => false,
        }
    }

    /// Interprets value-file content the way the read path does: `Ok` with
    /// the parsed level exactly when the trimmed content is a decimal
    /// numeral in byte range, `ParseError` otherwise.
    pub fn parse_value(content: &str) -> (r: Result<u8, GpioError>)
        ensures
            match parsed_u8(content@) {
                Some(v) => r == Ok::<u8, GpioError>(v),
                None => r == Err::<u8, GpioError>(GpioError::ParseError),
            },
    {
        match parse_u8(content) {
            Some(v) => Ok(v),
            None => Err(GpioError::ParseError),
        }
    }
}

/// Round trip of a pin's value file: the text written for a valid level —
/// the decimal rendering that the write path produces — parses back, through
/// the read path, to exactly that level.
pub proof fn lemma_write_read_round_trip(v: u8)
    requires
        valid_level(v),
    ensures
        parsed_u8(dec_digits(v as nat)) == Some(v),
{
    let s = dec_digits(v as nat);
    assert(s == seq![crate::text::digit_char(v as int)]);
    assert(s.drop_last() =~= Seq::<char>::empty());
    assert(crate::text::trim_front(s) == s);
    assert(crate::text::trim_back(s) == s);
    assert(s.last() == crate::text::digit_char(v as int));
    assert(crate::text::dec_value(s.drop_last()) == 0);
    if v == 0 {
        assert(s.last() == '0');
        assert('0' as u32 == 48);
        assert(crate::text::digit_of('0') == 0);
    } else {
        assert(s.last() == '1');
        assert('1' as u32 == 49);
        assert(crate::text::digit_of('1') == 1);
    }
    assert(crate::text::dec_value(s) == v);
}

} // verus!
