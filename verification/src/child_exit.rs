//! How a child process is ended: it is asked to end, given time, and only then
//! killed. It counts as ended only once it was seen to have ended.

#[allow(unused_imports)]
use crate::waiting::elapsed;
use crate::waiting::elapsed_since;
use vstd::prelude::*;

verus! {

/// The time that a child has to end, after it was asked to and after it was killed.
pub const CHILD_EXIT_TIMEOUT_MS: u64 = 500;

/// The pause between two looks at a child.
pub const CHILD_EXIT_POLL_MS: u64 = 25;

/// How far the end of a child is. The flag says whether it was killed.
#[derive(Debug, Clone, Copy, PartialEq, Eq, Structural)]
pub enum ChildExitStage {
    Ask,
    Look { killed: bool, since: u64 },
    Pause { killed: bool, since: u64 },
    Kill,
    Done(bool),
}

/// What is to be done next.
#[derive(Debug, Clone, Copy, PartialEq, Eq, Structural)]
pub enum ChildExitAction {
    RequestTermination,
    CheckChild,
    Sleep { ms: u64 },
    Kill,
    /// It is over; the flag says whether the child ended.
    Finish(bool),
}

/// What happened. Whether the request reached the child makes no difference.
pub enum ChildExitEvent {
    Requested { now: u64 },
    Checked { exited: bool, now: u64 },
    Elapsed,
    Killed { killed: bool, now: u64 },
}

pub open spec fn child_exit_action(stage: ChildExitStage) -> ChildExitAction {
    match stage {
        ChildExitStage::Ask => ChildExitAction::RequestTermination,
        ChildExitStage::Look { .. } => ChildExitAction::CheckChild,
        ChildExitStage::Pause { .. } => ChildExitAction::Sleep { ms: CHILD_EXIT_POLL_MS },
        ChildExitStage::Kill => ChildExitAction::Kill,
        ChildExitStage::Done(exited) => ChildExitAction::Finish(exited),
    }
}

/// The stage after an event; an event that was not waited for changes nothing.
pub open spec fn child_exit_next(stage: ChildExitStage, e: ChildExitEvent) -> ChildExitStage {
    match (stage, e) {
        (ChildExitStage::Ask, ChildExitEvent::Requested { now }) => {
            ChildExitStage::Look { killed: false, since: now }
        },
        (ChildExitStage::Look { killed, since }, ChildExitEvent::Checked { exited, now }) => {
            if exited {
                ChildExitStage::Done(true)
            } else if elapsed(since, now) < CHILD_EXIT_TIMEOUT_MS {
                ChildExitStage::Pause { killed, since }
            } else if killed {
                ChildExitStage::Done(false)
            } else {
                ChildExitStage::Kill
            }
        },
        (ChildExitStage::Pause { killed, since }, ChildExitEvent::Elapsed) => {
            ChildExitStage::Look { killed, since }
        },
        (ChildExitStage::Kill, ChildExitEvent::Killed { killed, now }) => if killed {
            ChildExitStage::Look { killed: true, since: now }
        } else {
            ChildExitStage::Done(false)
        },
        _ => stage,
    }
}

/// The end of one child.
#[derive(Debug, Clone, Copy, PartialEq, Eq, Structural)]
pub struct ChildExitRun {
    pub stage: ChildExitStage,
}

impl ChildExitRun {
    /// A child that is to end.
    pub fn terminate_child_process() -> (out: Self)
        ensures
            out.stage == ChildExitStage::Ask,
    {
        ChildExitRun { stage: ChildExitStage::Ask }
    }

    /// `child_exit_action`, computed.
    pub fn action(&self) -> (out: ChildExitAction)
        ensures
            out == child_exit_action(self.stage),
    {
        match self.stage {
            ChildExitStage::Ask => ChildExitAction::RequestTermination,
            ChildExitStage::Look { .. } => ChildExitAction::CheckChild,
            ChildExitStage::Pause { .. } => ChildExitAction::Sleep { ms: CHILD_EXIT_POLL_MS },
            ChildExitStage::Kill => ChildExitAction::Kill,
            ChildExitStage::Done(exited) => ChildExitAction::Finish(exited),
        }
    }

    pub fn on_requested(&mut self, now: u64)
        ensures
            final(self).stage == child_exit_next(
                old(self).stage,
                ChildExitEvent::Requested { now },
            ),
    {
        if let ChildExitStage::Ask = self.stage {
            self.stage = ChildExitStage::Look { killed: false, since: now };
        }
    }

    pub fn on_checked(&mut self, exited: bool, now: u64)
        ensures
            final(self).stage == child_exit_next(
                old(self).stage,
                ChildExitEvent::Checked { exited, now },
            ),
    {
        if let ChildExitStage::Look { killed, since } = self.stage {
            self.stage =
            if exited {
                ChildExitStage::Done(true)
            } else if elapsed_since(since, now) < CHILD_EXIT_TIMEOUT_MS {
                ChildExitStage::Pause { killed, since }
            } else if killed {
                ChildExitStage::Done(false)
            } else {
                ChildExitStage::Kill
            };
        }
    }

    pub fn on_elapsed(&mut self)
        ensures
            final(self).stage == child_exit_next(old(self).stage, ChildExitEvent::Elapsed),
    {
        if let ChildExitStage::Pause { killed, since } = self.stage {
            self.stage = ChildExitStage::Look { killed, since };
        }
    }

    pub fn on_killed(&mut self, killed: bool, now: u64)
        ensures
            final(self).stage == child_exit_next(
                old(self).stage,
                ChildExitEvent::Killed { killed, now },
            ),
    {
        if let ChildExitStage::Kill = self.stage {
            self.stage =
            if killed {
                ChildExitStage::Look { killed: true, since: now }
            } else {
                ChildExitStage::Done(false)
            };
        }
    }
}

/// The stage after a run of events.
pub open spec fn child_exit_run(es: Seq<ChildExitEvent>) -> ChildExitStage
    decreases es.len(),
{
    if es.len() == 0 {
        ChildExitStage::Ask
    } else {
        child_exit_next(child_exit_run(es.drop_last()), es.last())
    }
}

/// The child was asked to end at `asked`, and a look found it there still when its time
/// was over.
pub open spec fn given_time(es: Seq<ChildExitEvent>) -> bool {
    exists|i: int, j: int|
        0 <= i < j < es.len() && asked_and_late(#[trigger] es[i], #[trigger] es[j])
}

pub open spec fn asked_and_late(asked: ChildExitEvent, late: ChildExitEvent) -> bool {
    asked matches ChildExitEvent::Requested { now: at } && late matches ChildExitEvent::Checked {
        exited,
        now,
    } && !exited && elapsed(at, now) >= CHILD_EXIT_TIMEOUT_MS
}

/// A look found that the child had ended.
pub open spec fn seen_ended(es: Seq<ChildExitEvent>) -> bool {
    exists|i: int|
        0 <= i < es.len() && (#[trigger] es[i] matches ChildExitEvent::Checked { exited, .. }
            && exited)
}

/// What a stage says of the events before it.
spec fn explained(stage: ChildExitStage, es: Seq<ChildExitEvent>) -> bool {
    match stage {
        ChildExitStage::Ask => true,
        ChildExitStage::Look { killed, since } | ChildExitStage::Pause { killed, since } => if killed {
            given_time(es)
        } else {
            exists|i: int|
                0 <= i < es.len() && #[trigger] es[i] == (ChildExitEvent::Requested { now: since })
        },
        ChildExitStage::Kill => given_time(es),
        ChildExitStage::Done(exited) => if exited {
            seen_ended(es)
        } else {
            given_time(es)
        },
    }
}

proof fn lemma_explained(es: Seq<ChildExitEvent>)
    ensures
        explained(child_exit_run(es), es),
    decreases es.len(),
{
    if es.len() > 0 {
        let before = es.drop_last();
        let n = before.len() as int;
        lemma_explained(before);
        let stage = child_exit_run(before);
        assert(forall|i: int| 0 <= i < n ==> before[i] == es[i]);
        assert(es[n] == es.last());
        if given_time(before) {
            let (i, j) = choose|i: int, j: int|
                0 <= i < j < before.len() && asked_and_late(
                    #[trigger] before[i],
                    #[trigger] before[j],
                );
            assert(asked_and_late(es[i], es[j]));
        }
        if seen_ended(before) {
            let i = choose|i: int|
                0 <= i < before.len() && (#[trigger] before[i] matches ChildExitEvent::Checked {
                    exited,
                    ..
                } && exited);
            assert(es[i] == before[i]);
        }
        if let ChildExitStage::Look { killed: false, since } = stage {
            let i = choose|i: int|
                0 <= i < before.len() && #[trigger] before[i] == (ChildExitEvent::Requested {
                    now: since,
                });
            assert(es[i] == before[i]);
            if child_exit_run(es) is Kill {
                assert(asked_and_late(es[i], es[n]));
            }
        }
        if let ChildExitStage::Pause { killed: false, since } = stage {
            let i = choose|i: int|
                0 <= i < before.len() && #[trigger] before[i] == (ChildExitEvent::Requested {
                    now: since,
                });
            assert(es[i] == before[i]);
        }
    }
}

/// A child is killed only after it was asked to end and its time was over, and it counts
/// as ended only once a look found so.
pub proof fn law_child_is_asked_before_it_is_killed(es: Seq<ChildExitEvent>)
    ensures
        child_exit_action(child_exit_run(es)) is Kill ==> given_time(es),
        child_exit_action(child_exit_run(es)) == ChildExitAction::Finish(true) ==> seen_ended(es),
        child_exit_action(child_exit_run(es)) == ChildExitAction::Finish(false) ==> given_time(es),
{
    lemma_explained(es);
}

/// The looks of a wait: each found the child alive, and was followed by a pause.
pub open spec fn looks_at(times: Seq<u64>) -> Seq<ChildExitEvent>
    decreases times.len(),
{
    if times.len() == 0 {
        Seq::empty()
    } else {
        looks_at(times.drop_last()).push(
            ChildExitEvent::Checked { exited: false, now: times.last() },
        ).push(ChildExitEvent::Elapsed)
    }
}

/// One more event.
proof fn lemma_run_push(es: Seq<ChildExitEvent>, e: ChildExitEvent)
    ensures
        child_exit_run(es.push(e)) == child_exit_next(child_exit_run(es), e),
{
    assert(es.push(e).drop_last() =~= es);
}

proof fn lemma_looks(es: Seq<ChildExitEvent>, times: Seq<u64>, killed: bool, since: u64)
    requires
        child_exit_run(es) == (ChildExitStage::Look { killed, since }),
        forall|i: int| 0 <= i < times.len() ==> (#[trigger] times[i]) < since + 500,
    ensures
        child_exit_run(es + looks_at(times)) == (ChildExitStage::Look { killed, since }),
    decreases times.len(),
{
    if times.len() == 0 {
        assert(es + looks_at(times) =~= es);
    } else {
        let front = times.drop_last();
        assert forall|i: int| 0 <= i < front.len() implies (#[trigger] front[i]) < since + 500 by {
            assert(times[i] < since + 500);
        }
        lemma_looks(es, front, killed, since);
        assert(times[times.len() - 1] < since + 500);
        let look = ChildExitEvent::Checked { exited: false, now: times.last() };
        lemma_run_push(es + looks_at(front), look);
        lemma_run_push((es + looks_at(front)).push(look), ChildExitEvent::Elapsed);
        assert(es + looks_at(times) =~= (es + looks_at(front)).push(look).push(
            ChildExitEvent::Elapsed,
        ));
    }
}

/// What a wait of half a second comes to: a child that is found to have ended has ended;
/// one that has not is looked at again after twenty-five milliseconds, until its time is
/// over.
pub open spec fn half_a_second(es: Seq<ChildExitEvent>, since: u64, over: ChildExitAction) -> bool {
    &&& child_exit_action(child_exit_run(es)) == ChildExitAction::CheckChild
    &&& forall|now: u64|
        child_exit_action(
            child_exit_run(#[trigger] es.push(ChildExitEvent::Checked { exited: true, now })),
        ) == ChildExitAction::Finish(true)
    &&& forall|now: u64|
        child_exit_action(
            child_exit_run(#[trigger] es.push(ChildExitEvent::Checked { exited: false, now })),
        ) == if now >= since + 500 {
            over
        } else {
            ChildExitAction::Sleep { ms: 25 }
        }
}

proof fn lemma_half_a_second(
    es: Seq<ChildExitEvent>,
    times: Seq<u64>,
    killed: bool,
    since: u64,
)
    requires
        child_exit_run(es) == (ChildExitStage::Look { killed, since }),
        forall|i: int| 0 <= i < times.len() ==> (#[trigger] times[i]) < since + 500,
    ensures
        half_a_second(
            es + looks_at(times),
            since,
            if killed {
                ChildExitAction::Finish(false)
            } else {
                ChildExitAction::Kill
            },
        ),
{
    lemma_looks(es, times, killed, since);
    let all = es + looks_at(times);
    assert forall|exited: bool, now: u64|
        child_exit_run(#[trigger] all.push(ChildExitEvent::Checked { exited, now }))
            == child_exit_next(
            child_exit_run(all),
            ChildExitEvent::Checked { exited, now },
        ) by {
        lemma_run_push(all, ChildExitEvent::Checked { exited, now });
    }
}

/// A child is asked to end first and then has half a second for it, after which it is
/// killed.
pub proof fn law_a_child_has_half_a_second(at: u64, times: Seq<u64>)
    requires
        forall|i: int| 0 <= i < times.len() ==> (#[trigger] times[i]) < at + 500,
    ensures
        child_exit_action(child_exit_run(Seq::empty())) == ChildExitAction::RequestTermination,
        half_a_second(
            seq![ChildExitEvent::Requested { now: at }] + looks_at(times),
            at,
            ChildExitAction::Kill,
        ),
{
    let asked = Seq::<ChildExitEvent>::empty().push(ChildExitEvent::Requested { now: at });
    lemma_run_push(Seq::empty(), ChildExitEvent::Requested { now: at });
    assert(asked =~= seq![ChildExitEvent::Requested { now: at }]);
    lemma_half_a_second(asked, times, false, at);
}

/// A child that was killed has half a second more, after which it counts as not ended;
/// so does one that could not be killed.
pub proof fn law_a_killed_child_has_half_a_second_more(
    es: Seq<ChildExitEvent>,
    at: u64,
    times: Seq<u64>,
)
    requires
        child_exit_action(child_exit_run(es)) == ChildExitAction::Kill,
        forall|i: int| 0 <= i < times.len() ==> (#[trigger] times[i]) < at + 500,
    ensures
        half_a_second(
            es.push(ChildExitEvent::Killed { killed: true, now: at }) + looks_at(times),
            at,
            ChildExitAction::Finish(false),
        ),
        child_exit_action(
            child_exit_run(es.push(ChildExitEvent::Killed { killed: false, now: at })),
        ) == ChildExitAction::Finish(false),
{
    lemma_run_push(es, ChildExitEvent::Killed { killed: true, now: at });
    lemma_run_push(es, ChildExitEvent::Killed { killed: false, now: at });
    lemma_half_a_second(
        es.push(ChildExitEvent::Killed { killed: true, now: at }),
        times,
        true,
        at,
    );
}

/// What was not asked for changes nothing: an answer counts only where it was waited for.
pub proof fn law_the_end_of_a_child_takes_what_it_asked_for(
    stage: ChildExitStage,
    e: ChildExitEvent,
)
    requires
        match child_exit_action(stage) {
            ChildExitAction::RequestTermination => !(e is Requested),
            ChildExitAction::CheckChild => !(e is Checked),
            ChildExitAction::Sleep { .. } => !(e is Elapsed),
            ChildExitAction::Kill => !(e is Killed),
            ChildExitAction::Finish(_) => true,
        },
    ensures
        child_exit_next(stage, e) == stage,
{
}

} // verus!
