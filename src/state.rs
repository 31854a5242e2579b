use vstd::prelude::*;

verus! {

/// Errors reported by the debouncers.
#[derive(Debug, Clone, Copy, PartialEq, Eq, Structural)]
pub enum Error {
    /// The state of a pin was queried that the `PortDebouncer` was not created for.
    BtnUninitialized,
    /// The timing parameters given to a constructor are inconsistent: the window is empty, the
    /// hold time is shorter than the window, a time is not a whole number of windows, or the
    /// counter ceiling does not fit in a `u32`.
    InvalidTiming,
}

/// The debounced state of a button, as reported by `get_state`.
///
/// When several conditions hold at once, the reported one is the first of
/// `ChangedToPressed`, `Repeat`, `Hold`, `Pressed`, `UnPressed`.
#[derive(PartialEq, Eq, Structural, Copy, Clone, Debug)]
pub enum BtnState {
    Pressed,
    UnPressed,
    Repeat,
    Hold,
    ChangedToPressed,
}

/// The state of a button that has been stably pressed for `count` counter steps, past its edge:
/// `Repeat` from `ceiling` on, `Hold` from `hold` on, else `Pressed`.
pub open spec fn held_state(count: nat, hold: nat, ceiling: nat) -> BtnState {
    if count >= ceiling {
        BtnState::Repeat
    } else if count >= hold {
        BtnState::Hold
    } else {
        BtnState::Pressed
    }
}

} // verus!
