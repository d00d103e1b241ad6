//! The watcher's verified core: validation of the pins a watcher is built
//! over, and the registration table that associates each low-level watch
//! identifier with the value-file path it was registered for, so that a
//! change event is routed to the one registration — and so the one channel —
//! it belongs to.
//!
//! Creating the underlying watch subsystem, reading files and driving the
//! event loop happen outside this crate; the loop feeds each event's
//! identifier and class into [`GpioWatcher::route_event`] and performs what
//! that decision says.

use vstd::prelude::*;

use crate::errors::GpioError;
use crate::pin::GpioPin;

verus! {

/// One watch registration: a low-level watch identifier and the value-file
/// path it watches.
#[derive(Debug)]
pub struct WatchRegistration {
    pub wd: i32,
    pub path: String,
}

/// The registration table one watcher owns: built once during construction,
/// keyed by watch identifier, never holding one identifier twice.
#[derive(Debug)]
pub struct GpioWatcher {
    regs: Vec<WatchRegistration>,
}

impl GpioWatcher {
    /// How many registrations the watcher holds.
    pub closed spec fn reg_count(&self) -> nat {
        self.regs@.len()
    }

    /// The watch identifier of registration `i`.
    pub closed spec fn wd_at(&self, i: int) -> i32 {
        self.regs@[i].wd
    }

    /// The watched path of registration `i`.
    pub closed spec fn path_at(&self, i: int) -> Seq<char> {
        self.regs@[i].path@
    }

    /// Some registration carries this watch identifier.
    pub open spec fn has_wd(&self, wd: i32) -> bool {
        exists|i: int| 0 <= i < self.reg_count() && self.wd_at(i) == wd
    }

    /// Well-formedness: no two registrations share a watch identifier.
    pub open spec fn wf(&self) -> bool {
        forall|i: int, j: int|
            0 <= i < j < self.reg_count() ==> self.wd_at(i) != self.wd_at(j)
    }

    /// Whether an event with this identifier and class may reach
    /// registration `i`: only a modify event, and only the registration that
    /// carries the event's own identifier.
    pub open spec fn routed_to(&self, wd: i32, is_modify: bool, i: int) -> bool {
        is_modify && 0 <= i < self.reg_count() && self.wd_at(i) == wd
    }

    /// An empty table: the watcher before any registration is installed.
    pub fn new() -> (w: GpioWatcher)
        ensures
            w.wf(),
            w.reg_count() == 0,
    {
        GpioWatcher { regs: Vec::new() }
    }

    /// The index of the registration carrying `wd`, if any.
    fn find_index(&self, wd: i32) -> (r: Option<usize>)
        ensures
            match r {
                Some(i) => i < self.reg_count() && self.wd_at(i as int) == wd,
                None => !self.has_wd(wd),
            },
    {
        let n = self.regs.len();
        let mut idx: usize = 0;
        while idx < n
            invariant
                idx <= n,
                n == self.reg_count(),
                forall|j: int| 0 <= j < idx ==> self.wd_at(j) != wd,
            decreases n - idx,
        {
            if self.regs[idx].wd == wd {
                return Some(idx);
            }
            idx = idx + 1;
        }
        None
    }

    /// Installs a registration, as the watcher's construction does for each
    /// pin: a fresh identifier is appended; an identifier already present —
    /// the watch subsystem hands the same identifier back for the same path
    /// — has its path replaced. Returns the registration's index, every
    /// other registration untouched.
    pub fn register(&mut self, wd: i32, path: String) -> (i: usize)
        requires
            old(self).wf(),
        ensures
            final(self).wf(),
            i < final(self).reg_count(),
            final(self).wd_at(i as int) == wd,
            final(self).path_at(i as int) == path@,
            old(self).has_wd(wd) ==> final(self).reg_count() == old(self).reg_count() && old(
                self,
            ).wd_at(i as int) == wd,
            !old(self).has_wd(wd) ==> final(self).reg_count() == old(self).reg_count() + 1 && i
                == old(self).reg_count(),
            forall|j: int|
                0 <= j < old(self).reg_count() && j != i ==> final(self).wd_at(j) == old(
                    self,
                ).wd_at(j) && final(self).path_at(j) == old(self).path_at(j),
    {
        match self.find_index(wd) {
            Some(i) => {
                self.regs[i] = WatchRegistration { wd, path };
                proof {
                    assert(forall|j: int|
                        0 <= j < self.reg_count() && j != i ==> self.wd_at(j) == old(self).wd_at(
                            j,
                        ) && self.path_at(j) == old(self).path_at(j));
                    assert(self.wd_at(i as int) == wd);
                    assert(old(self).wd_at(i as int) == wd);
                    assert(forall|j: int|
                        0 <= j < self.reg_count() ==> self.wd_at(j) == old(self).wd_at(j));
                }
                i
            },
            None => {
                let i = self.regs.len();
                self.regs.push(WatchRegistration { wd, path });
                proof {
                    assert(forall|j: int|
                        0 <= j < old(self).reg_count() ==> old(self).wd_at(j) != wd);
                    assert(forall|j: int|
                        0 <= j < i ==> self.wd_at(j) == old(self).wd_at(j) && self.path_at(j)
                            == old(self).path_at(j));
                    assert(self.wd_at(i as int) == wd);
                }
                i
            },
        }
    }

    /// How many registrations the table holds.
    pub fn reg_len(&self) -> (n: usize)
        ensures
            n == self.reg_count(),
    {
        self.regs.len()
    }

    /// The watched path of registration `i`, if `i` is in range.
    pub fn get_path(&self, i: usize) -> (r: Option<&String>)
        ensures
            i < self.reg_count() ==> (r matches Some(p) && p@ == self.path_at(i as int)),
            i >= self.reg_count() ==> r is None,
    {
        if i < self.regs.len() {
            Some(&self.regs[i].path)
        } else {
            None
        }
    }

    /// The multiplexer's per-event decision: only a modify event is acted
    /// on, and an unknown identifier — a pin removed out of band — is
    /// silently skipped. Returns the index of the one registration the event
    /// belongs to, or nothing.
    pub fn route_event(&self, wd: i32, is_modify: bool) -> (r: Option<usize>)
        ensures
            r matches Some(i) ==> self.routed_to(wd, is_modify, i as int),
            is_modify && self.has_wd(wd) ==> r is Some,
            !(is_modify && self.has_wd(wd)) ==> r is None,
    {
        if !is_modify {
            return None;
        }
        self.find_index(wd)
    }

    /// Validation at watcher construction: accepts the pins exactly when
    /// every one of them is watch-capable, and otherwise reports the first
    /// pin that is not, by number, before any watch resource is touched.
    pub fn validate_pins(pins: &Vec<GpioPin>) -> (r: Result<(), GpioError>)
        ensures
            match r {
                Ok(()) => forall|i: int| 0 <= i < pins@.len() ==> pins@[i].watch_capable(),
                Err(e) => exists|i: int|
                    0 <= i < pins@.len() && !pins@[i].watch_capable() && (forall|j: int|
                        0 <= j < i ==> pins@[j].watch_capable()) && e == GpioError::UnwatchablePin(
                        pins@[i].pin_number_spec(),
                    ),
            },
    {
        let n = pins.len();
        let mut idx: usize = 0;
        while idx < n
            invariant
                idx <= n,
                n == pins@.len(),
                forall|j: int| 0 <= j < idx ==> pins@[j].watch_capable(),
            decreases n - idx,
        {
            if !pins[idx].support_watch() {
                return Err(GpioError::UnwatchablePin(pins[idx].get_pin_number()));
            }
            idx = idx + 1;
        }
        Ok(())
    }
}

/// Independence of the pins sharing one watcher: in a well-formed table two
/// different registrations never carry one watch identifier, so an event
/// bearing registration `a`'s identifier is never routed to a different
/// registration `b` — a change on one pin's value file can never produce a
/// notification on another pin's channel.
pub proof fn lemma_no_cross_notification(w: &GpioWatcher, a: int, b: int, is_modify: bool)
    requires
        w.wf(),
        0 <= a < w.reg_count(),
        0 <= b < w.reg_count(),
        a != b,
    ensures
        !w.routed_to(w.wd_at(a), is_modify, b),
{
}

} // verus!

