//! Recognition of single, double and triple presses of a controller button.
//!
//! A handler for `COUNT` earlier presses fires when the button goes down and each
//! of the `COUNT` previous presses happened within the click window. Times are
//! monotonic milliseconds supplied by the caller.

use vstd::prelude::*;

verus! {

/// How recent the earlier presses must be for a press with `count` earlier presses to fire.
pub open spec fn spec_click_time_ms(count: usize) -> u64 {
    if count == 0 { 0 } else if count == 1 { 500 } else { 750 }
}

pub fn click_time_ms(count: usize) -> (t: u64)
    requires
        count <= 2,
    ensures
        t == spec_click_time_ms(count),
{
    if count == 0 { 0 } else if count == 1 { 500 } else { 750 }
}

/// How far back the earlier presses are set after a multi-click fired, so that
/// they no longer count.
pub const FORGET_MS: u64 = 10000;

/// Time between `then` and `now`, zero when `then` is later.
pub open spec fn elapsed(then: u64, now: u64) -> u64 {
    if now >= then { (now - then) as u64 } else { 0 }
}

/// State of a handler: the times of the earlier presses (newest first) and whether
/// the current press fired or was rejected.
pub struct ClickState {
    pub previous: Seq<u64>,
    pub held_active: bool,
    pub held_inactive: bool,
}

/// Whether a check fires afresh: the button is down, no press is held, and
/// every earlier press is within the click window. Only then are the earlier
/// presses pushed back, to `now` minus the forget time.
pub open spec fn click_passes(st: ClickState, count: usize, active: bool, now: u64) -> bool {
    &&& active
    &&& !st.held_active
    &&& !st.held_inactive
    &&& forall|i: int| 0 <= i < st.previous.len() ==> elapsed(#[trigger] st.previous[i], now) < spec_click_time_ms(count)
}

/// One check of a handler while the button is (`active`) or is not down.
pub open spec fn click_step(st: ClickState, count: usize, active: bool, now: u64) -> (ClickState, bool) {
    if !active {
        (ClickState { previous: st.previous, held_active: false, held_inactive: false }, false)
    } else if st.held_active {
        (st, true)
    } else if st.held_inactive {
        (st, false)
    } else if forall|i: int| 0 <= i < st.previous.len() ==> elapsed(#[trigger] st.previous[i], now) < spec_click_time_ms(count) {
        (ClickState {
            previous: Seq::new(st.previous.len(), |i: int| (now - FORGET_MS) as u64),
            held_active: true,
            held_inactive: false,
        }, true)
    } else if count > 0 {
        (ClickState {
            previous: seq![now] + st.previous.take(st.previous.len() - 1),
            held_active: st.held_active,
            held_inactive: true,
        }, false)
    } else {
        (st, false)
    }
}

pub struct MultiClickHandler<const COUNT: usize> {
    previous: Vec<u64>,
    held_active: bool,
    held_inactive: bool,
}

impl<const COUNT: usize> MultiClickHandler<COUNT> {
    pub closed spec fn state(&self) -> ClickState {
        ClickState { previous: self.previous@, held_active: self.held_active, held_inactive: self.held_inactive }
    }

    pub open spec fn wf(&self) -> bool {
        COUNT <= 2 && self.state().previous.len() == COUNT
    }

    /// A handler whose earlier presses all count as happening at `now`.
    pub fn new(now: u64) -> (h: Self)
        requires
            COUNT <= 2,
        ensures
            h.wf(),
            h.state().previous == Seq::new(COUNT as nat, |i: int| now),
            !h.state().held_active,
            !h.state().held_inactive,
    {
        let mut previous: Vec<u64> = Vec::new();
        let mut i: usize = 0;
        while i < COUNT
            invariant
                i <= COUNT,
                previous@ == Seq::new(i as nat, |k: int| now),
            decreases COUNT - i,
        {
            previous.push(now);
            i = i + 1;
            assert(previous@ =~= Seq::new(i as nat, |k: int| now));
        }
        MultiClickHandler { previous, held_active: false, held_inactive: false }
    }

    /// Whether this handler's click is down at `now`; `active` says whether the
    /// button is pressed.
    /// A check that fires needs `now` to be at least the forget time, since the
    /// earlier presses are then set that far back.
    pub fn check(&mut self, active: bool, now: u64) -> (passed: bool)
        requires
            old(self).wf(),
            click_passes(old(self).state(), COUNT, active, now) ==> now >= FORGET_MS,
        ensures
            final(self).wf(),
            (final(self).state(), passed) == click_step(old(self).state(), COUNT, active, now),
    {
        if !active {
            self.held_active = false;
            self.held_inactive = false;
            return false;
        }
        if self.held_active {
            return true;
        }
        if self.held_inactive {
            return false;
        }
        let window = click_time_ms(COUNT);
        let mut passed = true;
        let mut i: usize = 0;
        while i < self.previous.len()
            invariant
                i <= self.previous@.len(),
                self.previous@ == old(self).previous@,
                passed == forall|k: int| 0 <= k < i ==> elapsed(#[trigger] self.previous@[k], now) < window,
            decreases self.previous@.len() - i,
        {
            let p = self.previous[i];
            let e: u64 = if now >= p { now - p } else { 0 };
            if !(e < window) {
                passed = false;
            }
            i = i + 1;
        }
        if passed {
            self.held_active = true;
            self.held_inactive = false;
            let long_ago = now - FORGET_MS;
            let mut fresh: Vec<u64> = Vec::new();
            let mut j: usize = 0;
            while j < self.previous.len()
                invariant
                    j <= self.previous@.len(),
                    fresh@ == Seq::new(j as nat, |k: int| long_ago),
                decreases self.previous@.len() - j,
            {
                fresh.push(long_ago);
                j = j + 1;
                assert(fresh@ =~= Seq::new(j as nat, |k: int| long_ago));
            }
            self.previous = fresh;
        } else if COUNT > 0 {
            let mut rotated: Vec<u64> = Vec::new();
            rotated.push(now);
            let mut j: usize = 0;
            while j + 1 < self.previous.len()
                invariant
                    j + 1 <= self.previous@.len() || j == 0,
                    self.previous@.len() == COUNT,
                    COUNT > 0,
                    rotated@ == seq![now] + self.previous@.take(j as int),
                decreases self.previous@.len() - j,
            {
                rotated.push(self.previous[j]);
                assert(self.previous@.take(j + 1) == self.previous@.take(j as int).push(self.previous@[j as int]));
                j = j + 1;
            }
            self.previous = rotated;
            self.held_inactive = true;
        }
        passed
    }
}

/// A press that fired keeps reporting as down for as long as the button is held,
/// and releasing the button clears that, so the next press is judged afresh.
pub proof fn law_held_press_fires_once(st: ClickState, count: usize, now1: u64, now2: u64)
    requires
        st.held_active,
    ensures
        click_step(st, count, true, now2) == (st, true),
        click_step(st, count, false, now1).0.held_active == false,
{
}

/// Double click: a press that did not fire is remembered, and a second press
/// less than 500 ms after it fires the double-click handler.
pub proof fn law_double_click(prev: u64, t1: u64, t2: u64)
    requires
        t1 < t2,
        t2 - t1 < 500,
        elapsed(prev, t1) >= 500,
    ensures
        ({
            let st0 = ClickState { previous: seq![prev], held_active: false, held_inactive: false };
            let (st1, fired1) = click_step(st0, 1, true, t1);
            let (st2, _) = click_step(st1, 1, false, (t1 + 1) as u64);
            let (st3, fired2) = click_step(st2, 1, true, t2);
            &&& !fired1
            &&& fired2
        }),
{
    let st0 = ClickState { previous: seq![prev], held_active: false, held_inactive: false };
    let (st1, fired1) = click_step(st0, 1, true, t1);
    assert(st0.previous[0] == prev);
    assert(!fired1);
    assert(st1.previous =~= seq![t1]);
    let (st2, _) = click_step(st1, 1, false, (t1 + 1) as u64);
    assert(st2.previous[0] == t1);
}

/// The first press after a quiet spell (no press, and no handler creation,
/// within the click window before it) does not fire a double click; it is
/// remembered as the first tap, and every further check while it is held
/// reports it as not down.
pub proof fn law_first_tap_never_fires(prev: u64, t0: u64, later: u64)
    requires
        elapsed(prev, t0) >= 500,
    ensures
        ({
            let st0 = ClickState { previous: seq![prev], held_active: false, held_inactive: false };
            let st1 = ClickState { previous: seq![t0], held_active: false, held_inactive: true };
            &&& click_step(st0, 1, true, t0) == (st1, false)
            &&& click_step(st1, 1, true, later) == (st1, false)
        }),
{
    let st0 = ClickState { previous: seq![prev], held_active: false, held_inactive: false };
    assert(st0.previous[0] == prev);
    assert(seq![t0] + st0.previous.take(0) =~= seq![t0]);
}

/// Releasing the button keeps the remembered presses and ends the current one.
pub proof fn law_release_keeps_taps(st: ClickState, count: usize, now: u64)
    ensures
        click_step(st, count, false, now) == (ClickState { previous: st.previous, held_active: false, held_inactive: false }, false),
{
}

/// The second press after a first tap at `t0`: pressed less than 500 ms later
/// it fires, and keeps firing while held; pressed 500 ms or more later it does
/// not fire and becomes the new first tap.
pub proof fn law_second_tap(t0: u64, t1: u64, later: u64)
    requires
        t0 <= t1,
    ensures
        ({
            let st = ClickState { previous: seq![t0], held_active: false, held_inactive: false };
            let (st2, fired) = click_step(st, 1, true, t1);
            &&& (t1 - t0 < 500) ==> fired && st2.held_active && click_step(st2, 1, true, later) == (st2, true)
            &&& (t1 - t0 >= 500) ==> !fired
                && st2 == (ClickState { previous: seq![t1], held_active: false, held_inactive: true })
                && click_step(st2, 1, true, later) == (st2, false)
        }),
{
    let st = ClickState { previous: seq![t0], held_active: false, held_inactive: false };
    assert(st.previous[0] == t0);
    assert(seq![t1] + st.previous.take(0) =~= seq![t1]);
}

/// A press that does not fire is remembered as the newest earlier press: the
/// earlier presses become `now` followed by the previous ones, newest first,
/// with the oldest one dropped. The handler keeps as many as before.
pub proof fn law_missed_press_is_remembered(st: ClickState, count: usize, now: u64)
    requires
        1 <= count <= 2,
        st.previous.len() == count,
        !st.held_active,
        !st.held_inactive,
        exists|i: int| 0 <= i < count && elapsed(#[trigger] st.previous[i], now) >= spec_click_time_ms(count),
    ensures
        ({
            let (st2, fired) = click_step(st, count, true, now);
            &&& !fired
            &&& st2.held_inactive
            &&& st2.previous.len() == count
            &&& st2.previous[0] == now
            &&& forall|i: int| 1 <= i < count ==> st2.previous[i] == #[trigger] st.previous[i - 1]
        }),
{
}

/// Triple click: after a quiet spell (the newest earlier press at least 750 ms
/// before the first press), three presses within 750 ms of the first one make
/// the third fire; the first two do not fire.
pub proof fn law_triple_click(p1: u64, p2: u64, t0: u64, t1: u64, t2: u64)
    requires
        p1 <= t0,
        t0 <= t1,
        t1 <= t2,
        t0 - p1 >= 750,
        t2 - t0 < 750,
    ensures
        ({
            let st0 = ClickState { previous: seq![p1, p2], held_active: false, held_inactive: false };
            let (a, fired0) = click_step(st0, 2, true, t0);
            let (b, _) = click_step(a, 2, false, t0);
            let (c, fired1) = click_step(b, 2, true, t1);
            let (d, _) = click_step(c, 2, false, t1);
            let (e, fired2) = click_step(d, 2, true, t2);
            &&& !fired0
            &&& !fired1
            &&& fired2
        }),
{
    let st0 = ClickState { previous: seq![p1, p2], held_active: false, held_inactive: false };
    assert(st0.previous[0] == p1);
    let (a, fired0) = click_step(st0, 2, true, t0);
    assert(a.previous =~= seq![t0, p1]);
    let (b, _) = click_step(a, 2, false, t0);
    assert(b.previous[1] == p1);
    let (c, fired1) = click_step(b, 2, true, t1);
    assert(c.previous =~= seq![t1, t0]);
    let (d, _) = click_step(c, 2, false, t1);
    assert(d.previous[0] == t1 && d.previous[1] == t0);
}

/// Single, double and triple click handlers of one button: the first that fires
/// wins and the later ones are not consulted.
pub struct CustomClickAction {
    pub single: MultiClickHandler<0>,
    pub double: MultiClickHandler<1>,
    pub triple: MultiClickHandler<2>,
}

impl CustomClickAction {
    pub open spec fn wf(&self) -> bool {
        self.single.wf() && self.double.wf() && self.triple.wf()
    }

    /// Handlers whose earlier presses all count as happening at `now`, none
    /// of them holding a press.
    pub fn new(now: u64) -> (c: CustomClickAction)
        ensures
            c.wf(),
            c.single.state() == (ClickState { previous: Seq::<u64>::empty(), held_active: false, held_inactive: false }),
            c.double.state() == (ClickState { previous: seq![now], held_active: false, held_inactive: false }),
            c.triple.state() == (ClickState { previous: seq![now, now], held_active: false, held_inactive: false }),
    {
        let c = CustomClickAction {
            single: MultiClickHandler::new(now),
            double: MultiClickHandler::new(now),
            triple: MultiClickHandler::new(now),
        };
        assert(c.single.state().previous =~= Seq::<u64>::empty());
        assert(c.double.state().previous =~= seq![now]);
        assert(c.triple.state().previous =~= seq![now, now]);
        c
    }

    /// Whether the action is down at `now`; each flag says whether the input
    /// bound to that handler is pressed (past the caller's threshold).
    /// A handler that fires needs `now` to be at least the forget time.
    pub fn state(&mut self, single_active: bool, double_active: bool, triple_active: bool, now: u64) -> (r: bool)
        requires
            old(self).wf(),
            click_passes(old(self).single.state(), 0, single_active, now) ==> now >= FORGET_MS,
            !click_step(old(self).single.state(), 0, single_active, now).1
                && click_passes(old(self).double.state(), 1, double_active, now) ==> now >= FORGET_MS,
            !click_step(old(self).single.state(), 0, single_active, now).1
                && !click_step(old(self).double.state(), 1, double_active, now).1
                && click_passes(old(self).triple.state(), 2, triple_active, now) ==> now >= FORGET_MS,
        ensures
            final(self).wf(),
            ({
                let (s1, r1) = click_step(old(self).single.state(), 0, single_active, now);
                let (s2, r2) = click_step(old(self).double.state(), 1, double_active, now);
                let (s3, r3) = click_step(old(self).triple.state(), 2, triple_active, now);
                &&& final(self).single.state() == s1
                &&& final(self).double.state() == if r1 { old(self).double.state() } else { s2 }
                &&& final(self).triple.state() == if r1 || r2 { old(self).triple.state() } else { s3 }
                &&& r == (r1 || r2 || r3)
            }),
    {
        if self.single.check(single_active, now) {
            return true;
        }
        if self.double.check(double_active, now) {
            return true;
        }
        self.triple.check(triple_active, now)
    }
}

} // verus!
