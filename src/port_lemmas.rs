use vstd::prelude::*;
use crate::state::{BtnState, held_state};
use crate::port::{PortDebouncer, PortView, and_all, pin_bit};

verus! {

proof fn lemma_pin_bit_and(a: u32, b: u32, p: u32)
    by (bit_vector)
    requires
        p < 32,
    ensures
        pin_bit(a & b, p) == (pin_bit(a, p) && pin_bit(b, p)),
{
}

proof fn lemma_pin_bit_not(a: u32, p: u32)
    by (bit_vector)
    requires
        p < 32,
    ensures
        pin_bit(!a, p) == !pin_bit(a, p),
{
}

proof fn lemma_pin_bit_ones(p: u32)
    by (bit_vector)
    requires
        p < 32,
    ensures
        pin_bit(0xFFFF_FFFFu32, p),
{
}

proof fn lemma_pin_bit_zero(p: u32)
    by (bit_vector)
    requires
        p < 32,
    ensures
        !pin_bit(0u32, p),
{
}

/// Every pin of a fresh debouncer reads as `UnPressed`.
pub proof fn lemma_initial_unpressed<const N: usize, const BTNS: usize>(
    repeat_ticks: usize,
    hold_ticks: usize,
    p: u32,
)
    requires
        BTNS <= 32,
        PortDebouncer::<N, BTNS>::timing_ok(repeat_ticks, hold_ticks),
        p < BTNS,
    ensures
        PortDebouncer::<N, BTNS>::initial(repeat_ticks, hold_ticks).query(p) == BtnState::UnPressed,
{
    lemma_pin_bit_zero(p);
}

/// A pin is set in the AND of a window exactly when it is set in every sample of the window.
pub proof fn lemma_and_all_bit(s: Seq<u32>, p: u32)
    requires
        p < 32,
    ensures
        pin_bit(and_all(s), p) <==> forall|i: int| 0 <= i < s.len() ==> pin_bit(s[i], p),
    decreases s.len(),
{
    if s.len() == 0 {
        lemma_pin_bit_ones(p);
    } else {
        let init = s.drop_last();
        lemma_and_all_bit(init, p);
        lemma_pin_bit_and(and_all(init), s.last(), p);
        if forall|i: int| 0 <= i < s.len() ==> pin_bit(s[i], p) {
            assert forall|i: int| 0 <= i < init.len() implies pin_bit(init[i], p) by {
                assert(init[i] == s[i]);
            }
        }
        if pin_bit(and_all(s), p) {
            assert forall|i: int| 0 <= i < s.len() implies pin_bit(s[i], p) by {
                if i < init.len() {
                    assert(init[i] == s[i]);
                }
            }
        }
    }
}

/// Every `update` keeps the debouncer well formed and its sizes and timing unchanged.
pub proof fn lemma_next_wf(m: PortView, v: u32)
    requires
        m.wf(),
    ensures
        m.next(v).wf(),
        m.next(v).samples.len() == m.samples.len(),
        m.next(v).counters.len() == m.counters.len(),
        m.next(v).hold == m.hold,
        m.next(v).repeat == m.repeat,
{
}

/// Feeding samples keeps the debouncer well formed and its sizes and timing unchanged.
pub proof fn lemma_feed_wf(m: PortView, s: Seq<u32>)
    requires
        m.wf(),
    ensures
        m.feed(s).wf(),
        m.feed(s).samples.len() == m.samples.len(),
        m.feed(s).counters.len() == m.counters.len(),
        m.feed(s).hold == m.hold,
        m.feed(s).repeat == m.repeat,
    decreases s.len(),
{
    if s.len() > 0 {
        lemma_next_wf(m, s[0]);
        lemma_feed_wf(m.next(s[0]), s.drop_first());
    }
}

/// Feeding `s` and then `t` is feeding `s + t`.
pub proof fn lemma_feed_append(m: PortView, s: Seq<u32>, t: Seq<u32>)
    ensures
        m.feed(s + t) == m.feed(s).feed(t),
    decreases s.len(),
{
    if s.len() > 0 {
        assert((s + t).drop_first() =~= s.drop_first() + t);
        lemma_feed_append(m.next(s[0]), s.drop_first(), t);
    } else {
        assert(s + t =~= t);
    }
}

/// Feeding one sample is one `update`.
pub proof fn lemma_feed_one(m: PortView, v: u32)
    ensures
        m.feed(seq![v]) == m.next(v),
{
    let s = seq![v];
    assert(s.drop_first() =~= Seq::<u32>::empty());
    assert(m.next(v).feed(Seq::<u32>::empty()) == m.next(v));
}

/// From the start of a window, the first `j` samples of the window only fill the ring.
proof fn lemma_window_prefix(m: PortView, w: Seq<u32>, j: nat)
    requires
        m.wf(),
        m.index == 0,
        w.len() == m.samples.len(),
        j < w.len(),
    ensures
        m.feed(w.take(j as int)) == (PortView {
            samples: m.feed(w.take(j as int)).samples,
            index: j,
            ..m
        }),
        m.feed(w.take(j as int)).samples.len() == w.len(),
        forall|i: int| 0 <= i < j ==> m.feed(w.take(j as int)).samples[i] == w[i],
    decreases j,
{
    if j == 0 {
        assert(w.take(0) =~= Seq::<u32>::empty());
    } else {
        let jm = (j - 1) as nat;
        lemma_window_prefix(m, w, jm);
        assert(w.take(j as int) =~= w.take(jm as int) + seq![w[jm as int]]);
        lemma_feed_append(m, w.take(jm as int), seq![w[jm as int]]);
        let f = m.feed(w.take(jm as int));
        lemma_feed_one(f, w[jm as int]);
    }
}

/// One whole window of samples, fed from the start of a window, replaces the ring and
/// produces a new debounced port: the AND of the window.
pub proof fn lemma_window(m: PortView, w: Seq<u32>)
    requires
        m.wf(),
        m.index == 0,
        w.len() == m.samples.len(),
    ensures
        m.feed(w) == (PortView {
            samples: w,
            index: 0,
            last: and_all(w),
            debounced: and_all(w),
            changed: !m.last & and_all(w),
            counters: Seq::new(
                m.counters.len(),
                |p: int| m.next_count(m.counters[p], pin_bit(m.last & and_all(w), p as u32)),
            ),
            ..m
        }),
{
    let j = (w.len() - 1) as nat;
    lemma_window_prefix(m, w, j);
    let f = m.feed(w.take(j as int));
    assert(w =~= w.take(j as int) + seq![w[j as int]]);
    lemma_feed_append(m, w.take(j as int), seq![w[j as int]]);
    lemma_feed_one(f, w[j as int]);
    assert(f.samples.update(j as int, w[j as int]) =~= w);
    assert(m.feed(w).counters =~= Seq::new(
        m.counters.len(),
        |p: int| m.next_count(m.counters[p], pin_bit(m.last & and_all(w), p as u32)),
    ));
}

/// The pin reads as released: no edge, not debounced-pressed, counter at zero.
spec fn released(m: PortView, p: u32) -> bool {
    &&& !pin_bit(m.changed, p)
    &&& !pin_bit(m.debounced, p)
    &&& m.counters[p as int] == 0
}

/// An `update` with the pin inactive keeps a released pin released, and a window completed by
/// such an `update` releases the pin.
proof fn lemma_next_released(m: PortView, v: u32, p: u32)
    requires
        m.wf(),
        p < m.counters.len(),
        !pin_bit(v, p),
        released(m, p) || m.index + 1 == m.samples.len(),
    ensures
        released(m.next(v), p),
{
    if m.index + 1 == m.samples.len() {
        let samples = m.samples.update(m.index as int, v);
        let d = and_all(samples);
        lemma_and_all_bit(samples, p);
        assert(samples[m.index as int] == v);
        lemma_pin_bit_and(!m.last, d, p);
        lemma_pin_bit_and(m.last, d, p);
    }
}

proof fn lemma_feed_stays_released(m: PortView, s: Seq<u32>, p: u32)
    requires
        m.wf(),
        p < m.counters.len(),
        released(m, p),
        forall|i: int| 0 <= i < s.len() ==> !pin_bit(s[i], p),
    ensures
        released(m.feed(s), p),
    decreases s.len(),
{
    if s.len() > 0 {
        lemma_next_released(m, s[0], p);
        lemma_next_wf(m, s[0]);
        lemma_feed_stays_released(m.next(s[0]), s.drop_first(), p);
    }
}

proof fn lemma_feed_reaches_released(m: PortView, s: Seq<u32>, p: u32)
    requires
        m.wf(),
        p < m.counters.len(),
        s.len() >= m.samples.len() - m.index,
        forall|i: int| 0 <= i < s.len() ==> !pin_bit(s[i], p),
    ensures
        released(m.feed(s), p),
    decreases s.len(),
{
    lemma_next_wf(m, s[0]);
    if m.index + 1 == m.samples.len() {
        lemma_next_released(m, s[0], p);
        lemma_feed_stays_released(m.next(s[0]), s.drop_first(), p);
    } else {
        lemma_feed_reaches_released(m.next(s[0]), s.drop_first(), p);
    }
}

/// Samples in which pin `p` is inactive, for at least one whole window, leave the pin released
/// with its counter at zero, whatever its state before (held or repeating included): it reads
/// as `UnPressed`.
pub proof fn lemma_release(m: PortView, s: Seq<u32>, p: u32)
    requires
        m.wf(),
        p < m.counters.len(),
        s.len() >= m.samples.len(),
        forall|i: int| 0 <= i < s.len() ==> !pin_bit(s[i], p),
    ensures
        m.feed(s).counters[p as int] == 0,
        !pin_bit(m.feed(s).debounced, p),
        m.feed(s).query(p) == BtnState::UnPressed,
{
    lemma_feed_reaches_released(m, s, p);
    lemma_feed_wf(m, s);
}

/// Whole windows with pin `p` active, from the start of a window where the pin was already
/// debounced-pressed, count one step per window up to the ceiling.
proof fn lemma_sustain(m: PortView, s: Seq<u32>, k: nat, p: u32)
    requires
        m.wf(),
        m.index == 0,
        p < m.counters.len(),
        pin_bit(m.last, p),
        pin_bit(m.debounced, p),
        s.len() == k * m.samples.len(),
        forall|i: int| 0 <= i < s.len() ==> pin_bit(s[i], p),
    ensures
        m.feed(s).wf(),
        m.feed(s).index == 0,
        m.feed(s).hold == m.hold,
        m.feed(s).repeat == m.repeat,
        m.feed(s).counters.len() == m.counters.len(),
        m.feed(s).samples.len() == m.samples.len(),
        pin_bit(m.feed(s).last, p),
        pin_bit(m.feed(s).debounced, p),
        k >= 1 ==> !pin_bit(m.feed(s).changed, p),
        m.feed(s).counters[p as int] == if m.counters[p as int] + k < m.ceiling() {
            m.counters[p as int] + k
        } else {
            m.ceiling() as int
        },
    decreases k,
{
    let n = m.samples.len();
    if k == 0 {
        assert(k * n == 0) by (nonlinear_arith)
            requires
                k == 0,
        ;
        assert(s =~= Seq::<u32>::empty());
    } else {
        let km = (k - 1) as nat;
        assert(km * n + n == k * n) by (nonlinear_arith)
            requires
                km == k - 1,
        ;
        let a = s.take((km * n) as int);
        let w = s.skip((km * n) as int);
        assert(s =~= a + w);
        lemma_sustain(m, a, km, p);
        lemma_feed_append(m, a, w);
        let f = m.feed(a);
        lemma_window(f, w);
        lemma_and_all_bit(w, p);
        assert forall|i: int| 0 <= i < w.len() implies pin_bit(w[i], p) by {
            assert(w[i] == s[km * n + i]);
        }
        lemma_pin_bit_and(!f.last, and_all(w), p);
        lemma_pin_bit_not(f.last, p);
        lemma_pin_bit_and(f.last, and_all(w), p);
    }
}

/// The press sequence of a pin: after a window in which the pin was inactive in some sample,
/// and a window with it active in every sample, the pin reports `ChangedToPressed`; after
/// `k >= 1` further active windows it reports `Pressed`, then `Hold` once `k` reaches the
/// hold threshold, and `Repeat` once it reaches the hold threshold plus the repeat time. Its counter then stands at `k`, capped at that ceiling.
pub proof fn lemma_press(
    m: PortView,
    p: u32,
    released_window: Seq<u32>,
    press_window: Seq<u32>,
    k: nat,
    held: Seq<u32>,
)
    requires
        m.wf(),
        m.index == 0,
        p < m.counters.len(),
        released_window.len() == m.samples.len(),
        press_window.len() == m.samples.len(),
        held.len() == k * m.samples.len(),
        !pin_bit(and_all(released_window), p),
        forall|i: int| 0 <= i < press_window.len() ==> pin_bit(press_window[i], p),
        forall|i: int| 0 <= i < held.len() ==> pin_bit(held[i], p),
    ensures
        ({
            let r = m.feed(released_window + press_window + held);
            let count = if k < m.ceiling() {
                k
            } else {
                m.ceiling()
            };
            &&& r.counters[p as int] == count
            &&& r.query(p) == if k == 0 {
                BtnState::ChangedToPressed
            } else {
                held_state(count, m.hold, m.ceiling())
            }
        }),
{
    lemma_feed_append(m, released_window, press_window);
    lemma_feed_append(m, released_window + press_window, held);
    lemma_window(m, released_window);
    let m1 = m.feed(released_window);
    lemma_feed_wf(m, released_window);
    lemma_window(m1, press_window);
    let m2 = m1.feed(press_window);
    lemma_feed_wf(m1, press_window);
    lemma_and_all_bit(press_window, p);
    lemma_pin_bit_and(!m1.last, and_all(press_window), p);
    lemma_pin_bit_not(m1.last, p);
    lemma_pin_bit_and(m1.last, and_all(press_window), p);
    assert(m2.counters[p as int] == 0);
    lemma_sustain(m2, held, k, p);
}

/// While fewer windows complete than pin `p`'s counter lacks to reach the `Repeat` threshold,
/// the counter stays below that threshold.
proof fn lemma_no_repeat_within(m: PortView, s: Seq<u32>, p: u32)
    requires
        m.wf(),
        p < m.counters.len(),
        m.index + s.len() < (m.ceiling() - m.counters[p as int]) * m.samples.len(),
    ensures
        m.feed(s).counters[p as int] < m.ceiling(),
    decreases s.len(),
{
    let n = m.samples.len() as int;
    let b = m.ceiling() - m.counters[p as int];
    if s.len() == 0 {
        assert(b >= 1) by (nonlinear_arith)
            requires
                m.index < b * n,
                n >= 1,
        ;
    } else {
        let m2 = m.next(s[0]);
        lemma_next_wf(m, s[0]);
        if m.index + 1 == m.samples.len() {
            let b2 = m2.ceiling() - m2.counters[p as int];
            let len = s.len() as int;
            assert(b2 >= b - 1);
            assert(len - 1 < b2 * n) by (nonlinear_arith)
                requires
                    n - 1 + len < b * n,
                    b2 >= b - 1,
                    n >= 1,
            ;
        }
        lemma_no_repeat_within(m2, s.drop_first(), p);
    }
}

/// Reporting `Repeat` rewinds the pin's counter to the hold threshold, so that a query that
/// follows without an `update` reports `Hold`, and `Repeat` comes again only once `repeat`
/// more windows have completed.
pub proof fn lemma_repeat_then_hold(m: PortView, p: u32)
    requires
        m.wf(),
        p < m.counters.len(),
        m.repeat >= 1,
        m.query(p) == BtnState::Repeat,
    ensures
        m.after_query(p).counters[p as int] == m.hold,
        m.after_query(p).query(p) == BtnState::Hold,
        forall|s: Seq<u32>|
            m.index + s.len() < m.repeat * m.samples.len() ==> #[trigger] m.after_query(
                p,
            ).feed(s).query(p) != BtnState::Repeat,
{
    let a = m.after_query(p);
    assert forall|s: Seq<u32>|
        m.index + s.len() < m.repeat * m.samples.len() implies #[trigger] a.feed(s).query(p)
        != BtnState::Repeat by {
        assert(a.wf());
        assert(a.ceiling() - a.counters[p as int] == m.repeat);
        lemma_no_repeat_within(a, s, p);
        lemma_feed_wf(a, s);
    }
}

/// Updates that complete no window only fill the ring.
pub proof fn lemma_within_window(m: PortView, s: Seq<u32>)
    requires
        m.wf(),
        m.index + s.len() < m.samples.len(),
    ensures
        m.feed(s) == (PortView {
            samples: m.feed(s).samples,
            index: m.index + s.len(),
            ..m
        }),
        m.feed(s).samples.len() == m.samples.len(),
    decreases s.len(),
{
    if s.len() > 0 {
        lemma_next_wf(m, s[0]);
        lemma_within_window(m.next(s[0]), s.drop_first());
    }
}

/// A window completed by a sample with pin `p` inactive reads as `UnPressed` for that pin, and
/// so it stays, whatever samples follow, until the next window completes.
pub proof fn lemma_inactive_completion(m: PortView, v: u32, s: Seq<u32>, p: u32)
    requires
        m.wf(),
        p < m.counters.len(),
        m.index + 1 == m.samples.len(),
        !pin_bit(v, p),
        s.len() < m.samples.len(),
    ensures
        m.next(v).feed(s).query(p) == BtnState::UnPressed,
        m.next(v).feed(s).counters[p as int] == 0,
{
    lemma_next_released(m, v, p);
    lemma_next_wf(m, v);
    lemma_within_window(m.next(v), s);
}

} // verus!
