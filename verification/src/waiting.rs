//! Waiting for a condition, with the clock as an argument. Times are in
//! milliseconds and do not run backwards.

use vstd::prelude::*;

verus! {

pub const FOCUS_STABLE_SETTLE_MS: u64 = 150;

pub const FOCUS_ACQUIRE_TIMEOUT_MS: u64 = 500;

pub const FOCUS_POLL_INTERVAL_MS: u64 = 10;

pub const KEY_EVENT_SETTLE_MS: u64 = 30;

pub const POST_FILL_SETTLE_MS: u64 = 40;

pub const PASSWORD_FILL_READY_MS: u64 = 40;

pub const FAST_SUBMIT_READY_TIMEOUT_MS: u64 = 60;

pub const POST_SUBMIT_REQUIRED_ABSENCE_DWELL_MS: u64 = 1_500;

pub const POST_SUBMIT_POLL_MS: u64 = 100;

pub const PASSWORD_CLEANUP_ATTEMPTS: usize = 3;

pub const PASSWORD_CLEANUP_RETRY_MS: u64 = 50;

/// The time from `since` to `now`; none where `now` is earlier.
pub open spec fn elapsed(since: u64, now: u64) -> int {
    if now >= since {
        now - since
    } else {
        0
    }
}

pub fn elapsed_since(since: u64, now: u64) -> (out: u64)
    ensures
        out == elapsed(since, now),
{
    if now >= since {
        now - since
    } else {
        0
    }
}

/// What to do after a look at the condition.
#[derive(Debug, Clone, Copy, PartialEq, Eq, Structural)]
pub enum WaitStep {
    /// The wait is over, with this result.
    Done(bool),
    /// Look again after so many milliseconds.
    Sleep(u64),
}

/// How long to sleep with `gone` of `timeout` gone.
pub open spec fn pause(gone: int, timeout: u64) -> WaitStep {
    if gone >= timeout {
        WaitStep::Done(false)
    } else if timeout - gone < FOCUS_POLL_INTERVAL_MS {
        WaitStep::Sleep((timeout - gone) as u64)
    } else {
        WaitStep::Sleep(FOCUS_POLL_INTERVAL_MS)
    }
}

fn pause_for(gone: u64, timeout: u64) -> (out: WaitStep)
    ensures
        out == pause(gone as int, timeout),
{
    if gone >= timeout {
        WaitStep::Done(false)
    } else if timeout - gone < FOCUS_POLL_INTERVAL_MS {
        WaitStep::Sleep(timeout - gone)
    } else {
        WaitStep::Sleep(FOCUS_POLL_INTERVAL_MS)
    }
}

/// A wait until a condition has held for some time without a break.
#[derive(Debug, Clone, Copy, PartialEq, Eq, Structural)]
pub struct StableWait {
    pub stable_for: u64,
    pub timeout: u64,
    pub started: u64,
    pub stable_since: Option<u64>,
}

/// Since when the condition holds, after one more look.
pub open spec fn holds_since(w: StableWait, condition: bool, now: u64) -> Option<u64> {
    if !condition {
        None
    } else {
        match w.stable_since {
            Some(since) => Some(since),
            None => Some(now),
        }
    }
}

/// The wait after one more look.
pub open spec fn after_look(w: StableWait, condition: bool, now: u64) -> StableWait {
    StableWait { stable_since: holds_since(w, condition, now), ..w }
}

/// What to do after one more look.
pub open spec fn look_step(w: StableWait, condition: bool, now: u64) -> WaitStep {
    match holds_since(w, condition, now) {
        Some(since) => if elapsed(since, now) >= w.stable_for {
            WaitStep::Done(true)
        } else {
            pause(elapsed(w.started, now), w.timeout)
        },
        None => pause(elapsed(w.started, now), w.timeout),
    }
}

impl StableWait {
    /// A wait that starts now.
    pub fn new(stable_for: u64, timeout: u64, now: u64) -> (out: Self)
        ensures
            out == (StableWait { stable_for, timeout, started: now, stable_since: None }),
    {
        StableWait { stable_for, timeout, started: now, stable_since: None }
    }

    /// The wait for the focus of a password field.
    pub fn for_focus(now: u64) -> (out: Self)
        ensures
            out == (StableWait {
                stable_for: FOCUS_STABLE_SETTLE_MS,
                timeout: FOCUS_ACQUIRE_TIMEOUT_MS,
                started: now,
                stable_since: None,
            }),
            out.stable_for == 150,
            out.timeout == 500,
    {
        StableWait::new(FOCUS_STABLE_SETTLE_MS, FOCUS_ACQUIRE_TIMEOUT_MS, now)
    }

    /// One look at the condition.
    pub fn wait_for_stable_condition(&mut self, condition: bool, now: u64) -> (out: WaitStep)
        ensures
            *final(self) == after_look(*old(self), condition, now),
            out == look_step(*old(self), condition, now),
    {
        if condition {
            let since: u64 = match self.stable_since {
                Some(since) => since,
                None => now,
            };
            self.stable_since = Some(since);
            if elapsed_since(since, now) >= self.stable_for {
                return WaitStep::Done(true);
            }
        } else {
            self.stable_since = None;
        }
        pause_for(elapsed_since(self.started, now), self.timeout)
    }
}

/// The wait after a series of looks.
pub open spec fn after_looks(w: StableWait, looks: Seq<(bool, u64)>) -> StableWait
    decreases looks.len(),
{
    if looks.len() == 0 {
        w
    } else {
        after_look(after_looks(w, looks.drop_last()), looks.last().0, looks.last().1)
    }
}

proof fn lemma_stable_since(w: StableWait, looks: Seq<(bool, u64)>) -> (first: int)
    requires
        w.stable_since is None,
    ensures
        after_looks(w, looks).stable_for == w.stable_for,
        after_looks(w, looks).started == w.started,
        after_looks(w, looks).timeout == w.timeout,
        after_looks(w, looks).stable_since matches Some(since) ==> {
            &&& 0 <= first < looks.len()
            &&& looks[first].1 == since
            &&& forall|j: int| first <= j < looks.len() ==> #[trigger] looks[j].0
        },
    decreases looks.len(),
{
    if looks.len() == 0 {
        0
    } else {
        let before = looks.drop_last();
        let first = lemma_stable_since(w, before);
        assert(forall|j: int| 0 <= j < before.len() ==> before[j] == looks[j]);
        if after_looks(w, before).stable_since is Some {
            first
        } else {
            looks.len() - 1
        }
    }
}

/// A wait that ends well ends after a stretch of looks that all found the
/// condition true and that took as long as asked for.
pub proof fn law_stable_wait(w: StableWait, looks: Seq<(bool, u64)>) -> (first: int)
    requires
        w.stable_since is None,
        looks.len() > 0,
        look_step(
            after_looks(w, looks.drop_last()),
            looks.last().0,
            looks.last().1,
        ) == WaitStep::Done(true),
    ensures
        0 <= first < looks.len(),
        elapsed(looks[first].1, looks.last().1) >= w.stable_for,
        forall|j: int| first <= j < looks.len() ==> #[trigger] looks[j].0,
{
    let a = lemma_stable_since(w, looks.drop_last());
    lemma_stable_since(w, looks)
}

/// What to do after a look at a button that is to become enabled.
pub open spec fn button_step(enabled: bool, started: u64, timeout: u64, now: u64) -> WaitStep {
    if enabled {
        WaitStep::Done(true)
    } else {
        pause(elapsed(started, now), timeout)
    }
}

/// `button_step`, computed.
pub fn wait_for_button_enabled(enabled: bool, started: u64, timeout: u64, now: u64) -> (out:
    WaitStep)
    ensures
        out == button_step(enabled, started, timeout, now),
{
    if enabled {
        WaitStep::Done(true)
    } else {
        pause_for(elapsed_since(started, now), timeout)
    }
}

/// A condition that was true in every look of a stretch, from the first look on or since
/// one that found it false, ends the wait well once the stretch is long enough.
pub proof fn law_a_steady_condition_ends_a_wait(
    w: StableWait,
    looks: Seq<(bool, u64)>,
    first: int,
)
    requires
        w.stable_since is None,
        0 <= first < looks.len(),
        forall|j: int| first <= j < looks.len() ==> (#[trigger] looks[j]).0,
        first > 0 ==> !looks[first - 1].0,
    ensures
        ({
            let step = look_step(
                after_looks(w, looks.drop_last()),
                looks.last().0,
                looks.last().1,
            );
            let held = looks.last().1 - looks[first].1;
            let gone = looks.last().1 - w.started;
            &&& held >= w.stable_for ==> step == WaitStep::Done(true)
            &&& 0 <= held < w.stable_for && gone >= 0 ==> step == waits_on(gone, w.timeout)
        }),
{
    lemma_steady(w, looks.drop_last(), first);
    lemma_kept(w, looks.drop_last());
    if first < looks.len() - 1 {
        assert(looks.drop_last()[first] == looks[first]);
    }
}

/// A look that finds the condition false ends nothing but the stretch: the wait goes on
/// until its time is over, and then it has failed.
pub proof fn law_an_unsteady_condition_is_waited_for(w: StableWait, now: u64)
    ensures
        after_look(w, false, now).stable_since is None,
        now >= w.started ==> look_step(w, false, now) == waits_on(now - w.started, w.timeout),
{
}

/// A button that is enabled ends the wait for it at once; otherwise the wait goes on until
/// its time is over.
pub proof fn law_an_enabled_button_ends_a_wait(started: u64, timeout: u64, now: u64)
    requires
        now >= started,
    ensures
        button_step(true, started, timeout, now) == WaitStep::Done(true),
        button_step(false, started, timeout, now) == waits_on(now - started, timeout),
{
}

/// How a wait goes on: with a pause of ten milliseconds, or of what is left of the time;
/// once nothing is left it has failed.
pub open spec fn waits_on(gone: int, timeout: u64) -> WaitStep {
    if gone >= timeout {
        WaitStep::Done(false)
    } else if gone + 10 <= timeout {
        WaitStep::Sleep(10)
    } else {
        WaitStep::Sleep((timeout - gone) as u64)
    }
}

proof fn lemma_kept(w: StableWait, looks: Seq<(bool, u64)>)
    ensures
        after_looks(w, looks).stable_for == w.stable_for,
        after_looks(w, looks).started == w.started,
        after_looks(w, looks).timeout == w.timeout,
    decreases looks.len(),
{
    if looks.len() > 0 {
        lemma_kept(w, looks.drop_last());
    }
}

proof fn lemma_steady(w: StableWait, looks: Seq<(bool, u64)>, first: int)
    requires
        w.stable_since is None,
        0 <= first <= looks.len(),
        forall|j: int| first <= j < looks.len() ==> (#[trigger] looks[j]).0,
        first > 0 ==> !looks[first - 1].0,
    ensures
        after_looks(w, looks).stable_since == if first < looks.len() {
            Some(looks[first].1)
        } else {
            None
        },
    decreases looks.len(),
{
    if looks.len() > 0 {
        let front = looks.drop_last();
        if first < looks.len() {
            assert forall|j: int| first <= j < front.len() implies (#[trigger] front[j]).0 by {
                assert(looks[j].0);
            }
            assert(looks[looks.len() - 1].0);
            lemma_steady(w, front, first);
        }
    }
}

} // verus!
