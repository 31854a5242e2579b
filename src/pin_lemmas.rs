use vstd::prelude::*;
use crate::state::{BtnState, held_state};
use crate::pin::PinView;

verus! {

/// Every `update` keeps the debouncer well formed and its timing unchanged.
pub proof fn lemma_next_wf(m: PinView, v: bool)
    requires
        m.wf(),
    ensures
        m.next(v).wf(),
        m.next(v).press == m.press,
        m.next(v).hold == m.hold,
        m.next(v).repeat == m.repeat,
{
}

/// Feeding `s` and then `t` is feeding `s + t`.
pub proof fn lemma_feed_append(m: PinView, s: Seq<bool>, t: Seq<bool>)
    ensures
        m.feed(s + t) == m.feed(s).feed(t),
    decreases s.len(),
{
    if s.len() > 0 {
        assert((s + t).drop_first() =~= s.drop_first() + t);
        lemma_feed_append(m.next(s[0]), s.drop_first(), t);
    } else {
        assert(s + t =~= t);
    }
}

/// Feeding one sample is one `update`.
pub proof fn lemma_feed_one(m: PinView, v: bool)
    ensures
        m.feed(seq![v]) == m.next(v),
{
    let s = seq![v];
    assert(s.drop_first() =~= Seq::<bool>::empty());
    assert(m.next(v).feed(Seq::<bool>::empty()) == m.next(v));
}

/// The counter after `j` equal samples `v`, from the counter of `m`.
pub open spec fn count_after(m: PinView, v: bool, j: nat) -> nat {
    if v {
        if m.counter + j < m.cap() {
            m.counter + j
        } else {
            m.cap()
        }
    } else if j == 0 {
        m.counter
    } else {
        0
    }
}

proof fn lemma_const_prefix(m: PinView, w: Seq<bool>, v: bool, j: nat)
    requires
        m.wf(),
        m.phase == 0,
        w.len() == m.window(),
        forall|i: int| 0 <= i < w.len() ==> w[i] == v,
        j < w.len(),
    ensures
        m.feed(w.take(j as int)) == (PinView { phase: j, counter: count_after(m, v, j), ..m }),
    decreases j,
{
    if j == 0 {
        assert(w.take(0) =~= Seq::<bool>::empty());
    } else {
        let jm = (j - 1) as nat;
        lemma_const_prefix(m, w, v, jm);
        assert(w.take(j as int) =~= w.take(jm as int) + seq![w[jm as int]]);
        lemma_feed_append(m, w.take(jm as int), seq![w[jm as int]]);
        lemma_feed_one(m.feed(w.take(jm as int)), w[jm as int]);
    }
}

/// One whole window of equal samples `v`, fed from the start of a window, moves the counter
/// by the window length (up to the cap, or down to zero) and produces the state that
/// this counter gives.
pub proof fn lemma_const_window(m: PinView, w: Seq<bool>, v: bool)
    requires
        m.wf(),
        m.phase == 0,
        w.len() == m.window(),
        forall|i: int| 0 <= i < w.len() ==> w[i] == v,
    ensures
        m.feed(w) == (PinView {
            phase: 0,
            counter: count_after(m, v, m.window()),
            state: m.window_state(count_after(m, v, m.window())),
            last: m.window_state(count_after(m, v, m.window())),
            ..m
        }),
        m.feed(w).wf(),
{
    let j = m.press;
    lemma_const_prefix(m, w, v, j);
    assert(w =~= w.take(j as int) + seq![w[j as int]]);
    lemma_feed_append(m, w.take(j as int), seq![w[j as int]]);
    lemma_feed_one(m.feed(w.take(j as int)), w[j as int]);
}

/// The pin reads as released: `UnPressed`, after an `UnPressed` window, counter at zero.
spec fn released(m: PinView) -> bool {
    &&& m.state == BtnState::UnPressed
    &&& m.last == BtnState::UnPressed
    &&& m.counter == 0
}

proof fn lemma_next_released(m: PinView)
    requires
        m.wf(),
        released(m) || m.phase == m.press,
    ensures
        released(m.next(false)),
{
}

proof fn lemma_feed_stays_released(m: PinView, s: Seq<bool>)
    requires
        m.wf(),
        released(m),
        forall|i: int| 0 <= i < s.len() ==> !s[i],
    ensures
        released(m.feed(s)),
    decreases s.len(),
{
    if s.len() > 0 {
        lemma_next_released(m);
        lemma_next_wf(m, false);
        lemma_feed_stays_released(m.next(false), s.drop_first());
    }
}

proof fn lemma_feed_reaches_released(m: PinView, s: Seq<bool>)
    requires
        m.wf(),
        s.len() >= m.window() - m.phase,
        forall|i: int| 0 <= i < s.len() ==> !s[i],
    ensures
        released(m.feed(s)),
    decreases s.len(),
{
    lemma_next_wf(m, false);
    if m.phase == m.press {
        lemma_next_released(m);
        lemma_feed_stays_released(m.next(false), s.drop_first());
    } else {
        lemma_feed_reaches_released(m.next(false), s.drop_first());
    }
}

/// Inactive samples, for at least one whole window, leave the pin `UnPressed` with its counter
/// at zero, whatever its state before (held or repeating included).
pub proof fn lemma_release(m: PinView, s: Seq<bool>)
    requires
        m.wf(),
        s.len() >= m.window(),
        forall|i: int| 0 <= i < s.len() ==> !s[i],
    ensures
        m.feed(s).state == BtnState::UnPressed,
        m.feed(s).counter == 0,
{
    lemma_feed_reaches_released(m, s);
}

/// Whole windows of active samples, from the start of a window past the edge, raise the
/// counter by the window length per window, up to the cap, and the state follows it.
proof fn lemma_sustain(m: PinView, s: Seq<bool>, k: nat)
    requires
        m.wf(),
        m.phase == 0,
        m.last != BtnState::UnPressed,
        m.counter >= m.window(),
        s.len() == k * m.window(),
        forall|i: int| 0 <= i < s.len() ==> s[i],
    ensures
        m.feed(s).wf(),
        m.feed(s).phase == 0,
        m.feed(s).press == m.press,
        m.feed(s).hold == m.hold,
        m.feed(s).repeat == m.repeat,
        m.feed(s).last != BtnState::UnPressed,
        m.feed(s).counter == count_after(m, true, k * m.window()),
        k >= 1 ==> m.feed(s).state == held_state(m.feed(s).counter, m.hold, m.ceiling()),
    decreases k,
{
    let n = m.window();
    if k == 0 {
        assert(k * n == 0) by (nonlinear_arith)
            requires
                k == 0,
        ;
        assert(s =~= Seq::<bool>::empty());
    } else {
        let km = (k - 1) as nat;
        assert(km * n + n == k * n) by (nonlinear_arith)
            requires
                km == k - 1,
        ;
        let a = s.take((km * n) as int);
        let w = s.skip((km * n) as int);
        assert(s =~= a + w);
        lemma_sustain(m, a, km);
        lemma_feed_append(m, a, w);
        let f = m.feed(a);
        assert forall|i: int| 0 <= i < w.len() implies w[i] by {
            assert(w[i] == s[km * n + i]);
        }
        lemma_const_window(f, w, true);
    }
}

/// The press sequence of a pin: after a window of inactive samples and a window of active
/// ones, the pin reports `ChangedToPressed`; after `k >= 1` further active windows it reports
/// `Pressed`, then `Hold` once the counter reaches the hold threshold, and `Repeat` once it
/// reaches the ceiling. The counter then stands at
/// `k + 1` windows of samples, capped at `cap()`.
pub proof fn lemma_press(
    m: PinView,
    released_window: Seq<bool>,
    press_window: Seq<bool>,
    k: nat,
    held: Seq<bool>,
)
    requires
        m.wf(),
        m.phase == 0,
        released_window.len() == m.window(),
        press_window.len() == m.window(),
        held.len() == k * m.window(),
        forall|i: int| 0 <= i < released_window.len() ==> !released_window[i],
        forall|i: int| 0 <= i < press_window.len() ==> press_window[i],
        forall|i: int| 0 <= i < held.len() ==> held[i],
    ensures
        ({
            let r = m.feed(released_window + press_window + held);
            let samples = (k + 1) * m.window();
            let count = if samples < m.cap() {
                samples
            } else {
                m.cap()
            };
            &&& r.counter == count
            &&& r.state == if k == 0 {
                BtnState::ChangedToPressed
            } else {
                held_state(count, m.hold, m.ceiling())
            }
        }),
{
    let n = m.window();
    lemma_feed_append(m, released_window, press_window);
    lemma_feed_append(m, released_window + press_window, held);
    lemma_const_window(m, released_window, false);
    let m1 = m.feed(released_window);
    lemma_const_window(m1, press_window, true);
    let m2 = m1.feed(press_window);
    lemma_sustain(m2, held, k);
    assert(n + k * n == (k + 1) * n) by (nonlinear_arith);
}

/// Fewer updates than the counter lacks to reach the `Repeat` threshold cannot produce `Repeat`.
proof fn lemma_no_repeat_within(m: PinView, s: Seq<bool>)
    requires
        m.wf(),
        m.state != BtnState::Repeat,
        m.counter + s.len() < m.ceiling(),
    ensures
        m.feed(s).state != BtnState::Repeat,
    decreases s.len(),
{
    if s.len() > 0 {
        lemma_next_wf(m, s[0]);
        lemma_no_repeat_within(m.next(s[0]), s.drop_first());
    }
}

/// Reporting `Repeat` rewinds the counter by the repeat time and falls back to `Hold`: a query
/// that follows without an `update` reports `Hold`, and `Repeat` comes again only after at
/// least `repeat` more updates.
pub proof fn lemma_repeat_then_hold(m: PinView)
    requires
        m.wf(),
        m.repeat >= 1,
        m.state == BtnState::Repeat,
    ensures
        m.after_query().state == BtnState::Hold,
        m.after_query().counter <= m.hold,
        forall|s: Seq<bool>|
            s.len() < m.repeat ==> #[trigger] m.after_query().feed(s).state != BtnState::Repeat,
{
    let a = m.after_query();
    assert forall|s: Seq<bool>| s.len() < m.repeat implies #[trigger] a.feed(s).state
        != BtnState::Repeat by {
        lemma_no_repeat_within(a, s);
    }
}

/// Updates that complete no window leave the reported state as it is.
pub proof fn lemma_within_window(m: PinView, s: Seq<bool>)
    requires
        m.wf(),
        m.phase + s.len() <= m.press,
    ensures
        m.feed(s).state == m.state,
        m.feed(s).last == m.last,
        m.feed(s).phase == m.phase + s.len(),
    decreases s.len(),
{
    if s.len() > 0 {
        lemma_next_wf(m, s[0]);
        lemma_within_window(m.next(s[0]), s.drop_first());
    }
}

/// A window completed by an inactive sample reads as `UnPressed`, and so it stays, whatever
/// samples follow, until the next window completes.
pub proof fn lemma_inactive_completion(m: PinView, s: Seq<bool>)
    requires
        m.wf(),
        m.phase == m.press,
        s.len() <= m.press,
    ensures
        m.next(false).feed(s).state == BtnState::UnPressed,
{
    lemma_next_wf(m, false);
    lemma_within_window(m.next(false), s);
}

} // verus!
