use vstd::prelude::*;
use crate::state::{BtnState, Error, held_state};

verus! {

/// The abstract state of a `PinDebouncer`.
pub struct PinView {
    /// Position within the current window: `0..=press`.
    pub phase: nat,
    /// The state produced by the previous completed window.
    pub last: BtnState,
    /// The state that `get_state` reports.
    pub state: BtnState,
    /// The window length minus one.
    pub press: nat,
    /// Active samples beyond the hold threshold that make one `Repeat`.
    pub repeat: nat,
    /// Count of consecutive active samples from which the pin reads as held.
    pub hold: nat,
    /// Consecutive active samples seen, capped at `cap()`.
    pub counter: nat,
}

impl PinView {
    /// The counter value from which a pressed pin reports `Repeat`.
    pub open spec fn ceiling(self) -> nat {
        self.hold + self.repeat
    }

    /// The largest value the counter takes: the `Repeat` threshold, or the window length where
    /// that is shorter, so that a full window of active samples always reads as pressed.
    pub open spec fn cap(self) -> nat {
        if self.ceiling() > self.press {
            self.ceiling()
        } else {
            self.window()
        }
    }

    pub open spec fn wf(self) -> bool {
        &&& self.phase <= self.press
        &&& self.press <= self.hold
        &&& self.counter <= self.cap()
        &&& self.ceiling() <= u32::MAX
        &&& self.window() <= u32::MAX
    }

    /// Number of samples in one window.
    pub open spec fn window(self) -> nat {
        self.press + 1
    }

    /// The counter after one more sample.
    pub open spec fn next_counter(self, v: bool) -> nat {
        if !v {
            0
        } else if self.counter < self.cap() {
            self.counter + 1
        } else {
            self.counter
        }
    }

    /// The state that a window completed with counter `counter` produces: the window is pressed
    /// when all of its samples were active; a pressed window after an `UnPressed` one is the
    /// edge, and later ones report `Repeat`, `Hold` or `Pressed` by the counter.
    pub open spec fn window_state(self, counter: nat) -> BtnState {
        if counter < self.window() {
            BtnState::UnPressed
        } else if self.last == BtnState::UnPressed {
            BtnState::ChangedToPressed
        } else {
            held_state(counter, self.hold, self.ceiling())
        }
    }

    /// The effect of one `update` with sample `v`.
    pub open spec fn next(self, v: bool) -> PinView {
        let counter = self.next_counter(v);
        if self.phase != self.press {
            PinView { phase: self.phase + 1, counter, ..self }
        } else {
            let s = self.window_state(counter);
            PinView { phase: 0, counter, state: s, last: s, ..self }
        }
    }

    /// The effect of one `update` for each sample of `s`, in order.
    pub open spec fn feed(self, s: Seq<bool>) -> PinView
        decreases s.len(),
    {
        if s.len() == 0 {
            self
        } else {
            self.next(s[0]).feed(s.drop_first())
        }
    }

    /// The effect of `get_state`: a `Repeat` is reported once, then the state falls back to
    /// `Hold` and the counter is rewound by `repeat` (down to zero at most).
    pub open spec fn after_query(self) -> PinView {
        if self.state == BtnState::Repeat {
            PinView {
                state: BtnState::Hold,
                counter: if self.counter >= self.repeat {
                    (self.counter - self.repeat) as nat
                } else {
                    0
                },
                ..self
            }
        } else {
            self
        }
    }
}

/// Debounces one boolean signal: the pin counts consecutive active samples, and every `press_ticks`
/// samples a new debounced state is derived from that count.
pub struct PinDebouncer {
    current_index: u32,
    last_debounced_state: BtnState,
    debounced_state: BtnState,
    press_ticks: u32,
    repeat_ticks: u32,
    hold_ticks: u32,
    counter: u32,
}

impl View for PinDebouncer {
    type V = PinView;

    closed spec fn view(&self) -> PinView {
        PinView {
            phase: self.current_index as nat,
            last: self.last_debounced_state,
            state: self.debounced_state,
            press: self.press_ticks as nat,
            repeat: self.repeat_ticks as nat,
            hold: self.hold_ticks as nat,
            counter: self.counter as nat,
        }
    }
}

impl PinDebouncer {
    /// Timing parameters that `new` accepts: a non-empty window, a hold time of at least one
    /// window, hold and repeat times that are whole numbers of windows, and a `Repeat` threshold
    /// that fits in a `u32`.
    pub open spec fn timing_ok(press_ticks: u32, repeat_ticks: u32, hold_ticks: u32) -> bool {
        &&& press_ticks >= 1
        &&& hold_ticks >= press_ticks
        &&& hold_ticks % press_ticks == 0
        &&& repeat_ticks % press_ticks == 0
        &&& hold_ticks - 1 + repeat_ticks <= u32::MAX
    }

    /// The state of a fresh debouncer for the given timing, all times in `update` calls.
    pub open spec fn initial(press_ticks: u32, repeat_ticks: u32, hold_ticks: u32) -> PinView {
        PinView {
            phase: 0,
            last: BtnState::UnPressed,
            state: BtnState::UnPressed,
            press: (press_ticks - 1) as nat,
            repeat: repeat_ticks as nat,
            hold: (hold_ticks - 1) as nat,
            counter: 0,
        }
    }

    /// Creates a debouncer with a window of `press_ticks` samples that reports `Hold` after
    /// `hold_ticks` consecutive active samples and `Repeat` after `repeat_ticks` more.
    pub fn new(press_ticks: u32, repeat_ticks: u32, hold_ticks: u32) -> (r: PinDebouncer)
        requires
            Self::timing_ok(press_ticks, repeat_ticks, hold_ticks),
        ensures
            r@ == Self::initial(press_ticks, repeat_ticks, hold_ticks),
            r@.wf(),
    {
        PinDebouncer {
            current_index: 0,
            last_debounced_state: BtnState::UnPressed,
            debounced_state: BtnState::UnPressed,
            press_ticks: press_ticks - 1,
            repeat_ticks,
            hold_ticks: hold_ticks - 1,
            counter: 0,
        }
    }

    /// Like `new`, but rejects inconsistent timing parameters with `Error::InvalidTiming`.
    pub fn try_new(press_ticks: u32, repeat_ticks: u32, hold_ticks: u32) -> (r: Result<
        PinDebouncer,
        Error,
    >)
        ensures
            Self::timing_ok(press_ticks, repeat_ticks, hold_ticks) <==> r is Ok,
            r matches Ok(d) ==> d@ == Self::initial(press_ticks, repeat_ticks, hold_ticks)
                && d@.wf(),
            r matches Err(e) ==> e == Error::InvalidTiming,
    {
        if press_ticks == 0 || hold_ticks < press_ticks || hold_ticks % press_ticks != 0
            || repeat_ticks % press_ticks != 0 || (hold_ticks - 1) as u64 + repeat_ticks as u64
            > u32::MAX as u64 {
            Err(Error::InvalidTiming)
        } else {
            Ok(Self::new(press_ticks, repeat_ticks, hold_ticks))
        }
    }

    /// Feeds one raw sample of the pin (`true` when active). Returns `true` when this sample
    /// completed a window, so that a new debounced state is available.
    pub fn update(&mut self, pin_value: bool) -> (r: bool)
        requires
            old(self)@.wf(),
        ensures
            final(self)@ == old(self)@.next(pin_value),
            final(self)@.wf(),
            r == (old(self)@.phase == old(self)@.press),
    {
        let ceiling = self.hold_ticks + self.repeat_ticks;
        let cap = if ceiling > self.press_ticks {
            ceiling
        } else {
            self.press_ticks + 1
        };
        if pin_value {
            if self.counter < cap {
                self.counter += 1;
            }
        } else {
            self.counter = 0;
        }

        if self.current_index != self.press_ticks {
            self.current_index += 1;
            return false;
        }

        self.current_index = 0;
        // The window is pressed when all of its `press_ticks + 1` samples were active.
        self.debounced_state = if self.counter <= self.press_ticks {
            BtnState::UnPressed
        } else if self.last_debounced_state == BtnState::UnPressed {
            BtnState::ChangedToPressed
        } else if self.counter >= self.hold_ticks + self.repeat_ticks {
            BtnState::Repeat
        } else if self.counter >= self.hold_ticks {
            BtnState::Hold
        } else {
            BtnState::Pressed
        };
        self.last_debounced_state = self.debounced_state;
        true
    }

    /// Returns the debounced state. A `Repeat` is reported once: the counter is rewound by the
    /// repeat time (to zero at least) and the state falls back to `Hold`.
    pub fn get_state(&mut self) -> (r: BtnState)
        requires
            old(self)@.wf(),
        ensures
            r == old(self)@.state,
            final(self)@ == old(self)@.after_query(),
            final(self)@.wf(),
    {
        match self.debounced_state {
            BtnState::Repeat => {
                self.counter = if self.counter >= self.repeat_ticks {
                    self.counter - self.repeat_ticks
                } else {
                    0
                };
                self.debounced_state = BtnState::Hold;
                BtnState::Repeat
            },
            other => other,
        }
    }
}

} // verus!
