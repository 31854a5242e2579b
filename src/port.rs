use vstd::prelude::*;
use crate::state::{BtnState, Error, held_state};

verus! {

/// Whether pin `p` is active in the port value `x` (bit `p`, counted from the least significant).
pub open spec fn pin_bit(x: u32, p: u32) -> bool {
    x & (1u32 << p) != 0
}

/// The bitwise AND of all values of `s`; all ones for the empty sequence.
pub open spec fn and_all(s: Seq<u32>) -> u32
    decreases s.len(),
{
    if s.len() == 0 {
        0xFFFF_FFFFu32
    } else {
        and_all(s.drop_last()) & s.last()
    }
}

/// The abstract state of a `PortDebouncer`.
pub struct PortView {
    /// The ring of raw samples of the current window.
    pub samples: Seq<u32>,
    /// The ring slot that the next sample goes to.
    pub index: nat,
    /// The debounced port of the previous completed window.
    pub last: u32,
    /// The debounced port: the AND of the samples of the last completed window.
    pub debounced: u32,
    /// The pins that became pressed at the last completed window.
    pub changed: u32,
    /// Completed windows beyond the hold threshold that make one `Repeat`.
    pub repeat: nat,
    /// Count of stably pressed windows from which a pin reads as held.
    pub hold: nat,
    /// For each pin, the number of completed windows it has stayed pressed since its edge,
    /// capped at `hold + repeat`.
    pub counters: Seq<u32>,
}

impl PortView {
    /// The largest value a counter takes.
    pub open spec fn ceiling(self) -> nat {
        self.hold + self.repeat
    }

    pub open spec fn wf(self) -> bool {
        &&& self.samples.len() >= 1
        &&& self.index < self.samples.len()
        &&& self.counters.len() <= 32
        &&& self.ceiling() <= u32::MAX
        &&& forall|p: int| 0 <= p < self.counters.len() ==> self.counters[p] <= self.ceiling()
    }

    /// A pin's counter `c` after a completed window; `both` tells whether the pin is pressed in
    /// the previous and in the new debounced port.
    pub open spec fn next_count(self, c: u32, both: bool) -> u32 {
        if !both {
            0
        } else if c < self.ceiling() {
            (c + 1) as u32
        } else {
            c
        }
    }

    /// The effect of one `update` with the raw port value `v`.
    pub open spec fn next(self, v: u32) -> PortView {
        let samples = self.samples.update(self.index as int, v);
        if self.index + 1 < self.samples.len() {
            PortView { samples, index: self.index + 1, ..self }
        } else {
            let d = and_all(samples);
            PortView {
                samples,
                index: 0,
                last: d,
                debounced: d,
                changed: !self.last & d,
                counters: Seq::new(
                    self.counters.len(),
                    |p: int| self.next_count(self.counters[p], pin_bit(self.last & d, p as u32)),
                ),
                ..self
            }
        }
    }

    /// The effect of one `update` for each value of `s`, in order.
    pub open spec fn feed(self, s: Seq<u32>) -> PortView
        decreases s.len(),
    {
        if s.len() == 0 {
            self
        } else {
            self.next(s[0]).feed(s.drop_first())
        }
    }

    /// The state that `get_state` reports for pin `p`: the edge first; then, for a pin that is
    /// debounced-pressed, `Repeat`, `Hold` or `Pressed` by its counter; else `UnPressed`.
    pub open spec fn query(self, p: u32) -> BtnState {
        if pin_bit(self.changed, p) {
            BtnState::ChangedToPressed
        } else if !pin_bit(self.debounced, p) {
            BtnState::UnPressed
        } else {
            held_state(self.counters[p as int] as nat, self.hold, self.ceiling())
        }
    }

    /// The effect of `get_state` on pin `p`: reporting `Repeat` rewinds the pin's counter by
    /// `repeat`.
    pub open spec fn after_query(self, p: u32) -> PortView {
        if self.query(p) == BtnState::Repeat {
            PortView {
                counters: self.counters.update(
                    p as int,
                    (self.counters[p as int] - self.repeat) as u32,
                ),
                ..self
            }
        } else {
            self
        }
    }
}

/// Debounces the first `BTNS` pins of a `u32` port, sampled together. The last `N` samples are
/// kept, and every `N`th `update` the debounced port becomes their bitwise AND: a pin reads as
/// pressed only if it was active in every sample of the window.
pub struct PortDebouncer<const N: usize, const BTNS: usize> {
    port_states: [u32; N],
    current_index: usize,
    last_debounced_state: u32,
    debounced_state: u32,
    changed_to_pressed: u32,
    repeat_ticks: usize,
    hold_ticks: usize,
    counter: [u32; BTNS],
}

impl<const N: usize, const BTNS: usize> View for PortDebouncer<N, BTNS> {
    type V = PortView;

    closed spec fn view(&self) -> PortView {
        PortView {
            samples: self.port_states@,
            index: self.current_index as nat,
            last: self.last_debounced_state,
            debounced: self.debounced_state,
            changed: self.changed_to_pressed,
            repeat: self.repeat_ticks as nat,
            hold: self.hold_ticks as nat,
            counters: self.counter@,
        }
    }
}

impl<const N: usize, const BTNS: usize> PortDebouncer<N, BTNS> {
    /// The debouncer is well formed, with a ring of `N` samples and one counter for each of the
    /// `BTNS` pins.
    pub open spec fn inv(&self) -> bool {
        &&& self@.wf()
        &&& self@.samples.len() == N
        &&& self@.counters.len() == BTNS
    }

    /// Timing parameters that `new` accepts, for a window of `N` samples: a hold time of at
    /// least one window, hold and repeat times that are whole numbers of windows, and a counter
    /// ceiling that fits in a `u32`.
    pub open spec fn timing_ok(repeat_ticks: usize, hold_ticks: usize) -> bool {
        &&& N >= 1
        &&& hold_ticks >= N
        &&& hold_ticks % N == 0
        &&& repeat_ticks % N == 0
        &&& hold_ticks / N - 1 + repeat_ticks / N <= u32::MAX
    }

    /// The state of a fresh debouncer; times are converted from samples to windows, and the
    /// hold threshold counts the windows after the one that made the edge.
    pub open spec fn initial(repeat_ticks: usize, hold_ticks: usize) -> PortView {
        PortView {
            samples: Seq::new(N as nat, |i: int| 0u32),
            index: 0,
            last: 0,
            debounced: 0,
            changed: 0,
            repeat: repeat_ticks as nat / N as nat,
            hold: (hold_ticks as nat / N as nat - 1) as nat,
            counters: Seq::new(BTNS as nat, |p: int| 0u32),
        }
    }

    /// Creates a debouncer that reports `Hold` after `hold_ticks` samples of sustained press and
    /// `Repeat` after `repeat_ticks` more.
    pub fn new(repeat_ticks: usize, hold_ticks: usize) -> (r: Self)
        requires
            BTNS <= 32,
            Self::timing_ok(repeat_ticks, hold_ticks),
        ensures
            r@ == Self::initial(repeat_ticks, hold_ticks),
            r.inv(),
    {
        assert(hold_ticks / N >= 1) by (nonlinear_arith)
            requires
                hold_ticks >= N,
                N >= 1,
        ;
        let r = PortDebouncer {
            port_states: [0u32; N],
            current_index: 0,
            last_debounced_state: 0,
            debounced_state: 0,
            changed_to_pressed: 0,
            repeat_ticks: repeat_ticks / N,
            hold_ticks: hold_ticks / N - 1,
            counter: [0u32; BTNS],
        };
        assert(r@.samples =~= Self::initial(repeat_ticks, hold_ticks).samples);
        assert(r@.counters =~= Self::initial(repeat_ticks, hold_ticks).counters);
        r
    }

    /// Like `new`, but rejects inconsistent timing parameters with `Error::InvalidTiming`.
    pub fn try_new(repeat_ticks: usize, hold_ticks: usize) -> (r: Result<Self, Error>)
        requires
            BTNS <= 32,
        ensures
            Self::timing_ok(repeat_ticks, hold_ticks) <==> r is Ok,
            r matches Ok(d) ==> d@ == Self::initial(repeat_ticks, hold_ticks) && d.inv(),
            r matches Err(e) ==> e == Error::InvalidTiming,
    {
        if N == 0 || hold_ticks < N || hold_ticks % N != 0 || repeat_ticks % N != 0 {
            return Err(Error::InvalidTiming);
        }
        assert(hold_ticks / N >= 1) by (nonlinear_arith)
            requires
                hold_ticks >= N,
                N >= 1,
        ;
        let hold = hold_ticks / N - 1;
        let repeat = repeat_ticks / N;
        if hold as u64 > u32::MAX as u64 || repeat as u64 > u32::MAX as u64 - hold as u64 {
            Err(Error::InvalidTiming)
        } else {
            Ok(Self::new(repeat_ticks, hold_ticks))
        }
    }

    /// Feeds one raw port sample, active-high: bit `p` is pin `p`. Returns `true` when this
    /// sample completed a window, so that a new debounced state is available.
    pub fn update(&mut self, port_value: u32) -> (r: bool)
        requires
            old(self).inv(),
        ensures
            final(self)@ == old(self)@.next(port_value),
            final(self).inv(),
            r == (old(self)@.index + 1 == N),
    {
        self.port_states[self.current_index] = port_value;
        if self.current_index != N - 1 {
            self.current_index += 1;
            false
        } else {
            self.current_index = 0;
            let mut debounced: u32 = 0xFFFF_FFFF;
            let mut i: usize = 0;
            while i < N
                invariant
                    i <= N,
                    debounced == and_all(self.port_states@.take(i as int)),
                decreases N - i,
            {
                assert(self.port_states@.take(i + 1).drop_last() =~= self.port_states@.take(
                    i as int,
                ));
                debounced = debounced & self.port_states[i];
                i += 1;
            }
            assert(self.port_states@.take(N as int) =~= self.port_states@);
            self.debounced_state = debounced;
            self.changed_to_pressed = !self.last_debounced_state & self.debounced_state;

            let both = self.last_debounced_state & self.debounced_state;
            let ceiling = (self.hold_ticks + self.repeat_ticks) as u32;
            let ghost before = old(self)@;
            let mut counter = self.counter;
            let mut index: usize = 0;
            while index < BTNS
                invariant
                    index <= BTNS,
                    BTNS <= 32,
                    ceiling == before.ceiling(),
                    counter@.len() == BTNS,
                    forall|p: int|
                        0 <= p < index ==> counter@[p] == before.next_count(
                            before.counters[p],
                            pin_bit(both, p as u32),
                        ),
                    forall|p: int| index <= p < BTNS ==> counter@[p] == before.counters[p],
                decreases BTNS - index,
            {
                if both & (1u32 << index as u32) != 0 {
                    if counter[index] < ceiling {
                        counter[index] += 1;
                    }
                } else {
                    counter[index] = 0;
                }
                index += 1;
            }
            self.counter = counter;
            self.last_debounced_state = self.debounced_state;
            assert(self@.counters =~= old(self)@.next(port_value).counters);
            true
        }
    }

    /// Returns the debounced state of pin `pin`, or `Error::BtnUninitialized` when the debouncer
    /// has fewer pins. Reporting `Repeat` rewinds the pin's counter by the repeat time, so the
    /// next query without an `update` reports `Hold`.
    pub fn get_state(&mut self, pin: usize) -> (r: Result<BtnState, Error>)
        requires
            old(self).inv(),
        ensures
            final(self).inv(),
            pin >= BTNS ==> r == Err::<BtnState, Error>(Error::BtnUninitialized) && final(self)@
                == old(self)@,
            pin < BTNS ==> r == Ok::<BtnState, Error>(old(self)@.query(pin as u32))
                && final(self)@ == old(self)@.after_query(pin as u32),
    {
        if pin >= BTNS {
            return Err(Error::BtnUninitialized);
        }
        let bit = 1u32 << pin as u32;
        if self.changed_to_pressed & bit != 0 {
            return Ok(BtnState::ChangedToPressed);
        }
        if self.debounced_state & bit == 0 {
            return Ok(BtnState::UnPressed);
        }
        let ceiling = (self.hold_ticks + self.repeat_ticks) as u32;
        if self.counter[pin] >= ceiling {
            self.counter[pin] -= self.repeat_ticks as u32;
            assert(self@.counters =~= old(self)@.after_query(pin as u32).counters);
            Ok(BtnState::Repeat)
        } else if self.counter[pin] >= self.hold_ticks as u32 {
            Ok(BtnState::Hold)
        } else {
            Ok(BtnState::Pressed)
        }
    }
}

} // verus!
