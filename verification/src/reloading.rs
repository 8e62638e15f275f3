//! When the saved configuration is loaded again, and how long a change of the settings
//! waits for the worker.

use crate::control::MonitorControlCommand;
#[allow(unused_imports)]
use crate::models::WorkerStatus;
use crate::startup::StartupConfig;
#[allow(unused_imports)]
use crate::startup::StartupView;
#[allow(unused_imports)]
use crate::supervision::{
    exit_left_storage_open, monitor_commanded, window_closed, window_ended, window_polled,
    without_presentation,
};
#[allow(unused_imports)]
use crate::supervisor::{
    commit_finished, commit_prepared, fresh_start, mutation_cancelled, mutation_quiet,
    mutation_waits, reload_requested, reload_token, reloaded, spawn_failed, storage_blocked,
    transition_active, with_fresh_trust, with_invalidation, with_pause, with_resume,
    with_status_shown, ReloadView, SupervisorView,
};
use crate::supervisor::{
    ChildStatus, LightweightSupervisor, QuiescenceReply, RecoveryReload,
    SETTINGS_QUIESCENCE_TIMEOUT_MS,
};
#[allow(unused_imports)]
use crate::waiting::elapsed;
use crate::waiting::elapsed_since;
use vstd::prelude::*;

verus! {

// ---------------------------------------------------------------------------
// What is to be loaded
// ---------------------------------------------------------------------------

/// What has to be done under the lock on the storage.
#[derive(Debug, Clone, Copy, PartialEq, Eq, Structural)]
pub enum ReloadNeed {
    /// Nothing; the lock is not even taken.
    Nothing,
    /// The session gets a new token. Nothing is loaded or recovered.
    Token,
    /// The configuration is loaded with recovery, and the session gets a new token.
    Recovery,
}

/// A block that only a restart lifts leaves nothing but the token to be changed.
pub open spec fn need_under(sticky_blocked: bool) -> ReloadNeed {
    if sticky_blocked {
        ReloadNeed::Token
    } else {
        ReloadNeed::Recovery
    }
}

/// After a look at the process of the settings window. A window that ended in the
/// middle of a change leaves nothing that may be recovered now.
pub open spec fn exit_need(s: SupervisorView, status: ChildStatus) -> ReloadNeed {
    if s.window.settings_child is Some && status == ChildStatus::Exited {
        need_under(s.gate.storage_recovery_sticky_blocked || s.window.settings_mutation_active)
    } else {
        ReloadNeed::Nothing
    }
}

/// After a request to reload. What a live settings window is about is never touched.
pub open spec fn request_need(s: SupervisorView) -> ReloadNeed {
    if transition_active(s) {
        ReloadNeed::Nothing
    } else {
        need_under(s.gate.storage_recovery_sticky_blocked)
    }
}

/// After a command for the monitor.
pub open spec fn monitor_need(s: SupervisorView, command: MonitorControlCommand) -> ReloadNeed {
    match command {
        MonitorControlCommand::ReloadConfig => request_need(s),
        _ => ReloadNeed::Nothing,
    }
}

/// After a settings window that could not be started.
pub open spec fn failed_spawn_need(s: SupervisorView) -> ReloadNeed {
    need_under(
        !s.gate.resume_monitor_after_settings || s.gate.storage_recovery_sticky_blocked,
    )
}

/// A loader is called only where there is a need, and is told of it.
pub open spec fn reload_may_run<R: FnOnce(ReloadNeed) -> RecoveryReload>(
    need: ReloadNeed,
    load: R,
) -> bool {
    need != ReloadNeed::Nothing ==> call_requires(load, (need,))
}

/// `reload` is what a loader may have given.
pub open spec fn reload_got<R: FnOnce(ReloadNeed) -> RecoveryReload>(
    need: ReloadNeed,
    load: R,
    reload: ReloadView,
) -> bool {
    if need == ReloadNeed::Nothing {
        reload == ReloadView::NoLease
    } else {
        exists|got: RecoveryReload| #[trigger]
            call_ensures(load, (need,), got) && reload == got.deep_view()
    }
}

fn reload_as_needed<R: FnOnce(ReloadNeed) -> RecoveryReload>(need: ReloadNeed, load: R) -> (out:
    RecoveryReload)
    requires
        reload_may_run(need, load),
    ensures
        reload_got(need, load, out.deep_view()),
{
    if need == ReloadNeed::Nothing {
        RecoveryReload::NoLease
    } else {
        load(need)
    }
}

fn need_for(sticky_blocked: bool) -> (out: ReloadNeed)
    ensures
        out == need_under(sticky_blocked),
{
    if sticky_blocked {
        ReloadNeed::Token
    } else {
        ReloadNeed::Recovery
    }
}

impl LightweightSupervisor {
    /// `exit_need`, computed.
    pub fn settings_exit_need(&self, status: ChildStatus) -> (out: ReloadNeed)
        ensures
            out == exit_need(self.deep_view(), status),
    {
        if self.window.settings_child.is_some() && status == ChildStatus::Exited {
            need_for(
                self.gate.storage_recovery_sticky_blocked || self.window.settings_mutation_active,
            )
        } else {
            ReloadNeed::Nothing
        }
    }

    /// `request_need`, computed.
    pub fn reload_request_need(&self) -> (out: ReloadNeed)
        ensures
            out == request_need(self.deep_view()),
    {
        if self.settings_transition_active() {
            ReloadNeed::Nothing
        } else {
            need_for(self.gate.storage_recovery_sticky_blocked)
        }
    }

    /// `monitor_need`, computed.
    pub fn monitor_command_need(&self, command: MonitorControlCommand) -> (out: ReloadNeed)
        ensures
            out == monitor_need(self.deep_view(), command),
    {
        match command {
            MonitorControlCommand::ReloadConfig => self.reload_request_need(),
            _ => ReloadNeed::Nothing,
        }
    }

    /// `failed_spawn_need`, computed.
    pub fn failed_settings_spawn_need(&self) -> (out: ReloadNeed)
        ensures
            out == failed_spawn_need(self.deep_view()),
    {
        need_for(
            !self.gate.resume_monitor_after_settings || self.gate.storage_recovery_sticky_blocked,
        )
    }

    /// A look at the process of the settings window, with a loader for what it left.
    pub fn poll_settings_window_with_loader<R: FnOnce(ReloadNeed) -> RecoveryReload>(
        &mut self,
        now: u64,
        status: ChildStatus,
        trusted_now: bool,
        load: R,
    )
        requires
            reload_may_run(exit_need(old(self).deep_view(), status), load),
        ensures
            exists|reload: ReloadView|
                {
                    &&& #[trigger] reload_got(
                        exit_need(old(self).deep_view(), status),
                        load,
                        reload,
                    )
                    &&& final(self).deep_view() == window_polled(
                        old(self).deep_view(),
                        now,
                        status,
                        trusted_now,
                        reload,
                    )
                },
    {
        let need: ReloadNeed = self.settings_exit_need(status);
        let reload: RecoveryReload = reload_as_needed(need, load);
        assert(reload_got(exit_need(old(self).deep_view(), status), load, reload.deep_view()));
        self.poll_settings_window(now, status, trusted_now, reload);
    }

    /// A request to reload, with a loader.
    pub fn reload_config_after_settings_with_loader<R: FnOnce(ReloadNeed) -> RecoveryReload>(
        &mut self,
        load: R,
    ) -> (r: bool)
        requires
            reload_may_run(request_need(old(self).deep_view()), load),
        ensures
            exists|reload: ReloadView|
                {
                    &&& #[trigger] reload_got(request_need(old(self).deep_view()), load, reload)
                    &&& (final(self).deep_view(), r) == reload_requested(
                        old(self).deep_view(),
                        reload,
                    )
                },
    {
        let need: ReloadNeed = self.reload_request_need();
        let reload: RecoveryReload = reload_as_needed(need, load);
        assert(reload_got(request_need(old(self).deep_view()), load, reload.deep_view()));
        self.reload_config_after_settings(reload)
    }

    /// Takes over what the settings window saved, with a loader for it. Nothing is
    /// loaded without a change that was begun.
    pub fn acknowledge_live_settings_commit_with_loader<
        A: FnOnce() -> Result<(), String>,
        L: FnOnce() -> StartupConfig,
    >(&mut self, trusted_now: bool, acknowledge: A, load_config: L) -> (r: bool)
        requires
            old(self).window.settings_mutation_active ==> call_requires(load_config, ()),
            old(self).window.settings_mutation_active ==> forall|startup: StartupConfig|
                #[trigger] call_ensures(load_config, (), startup) && commit_prepared(
                    old(self).deep_view(),
                    startup.deep_view(),
                    trusted_now,
                ).1 is Some ==> call_requires(acknowledge, ()),
        ensures
            if !old(self).window.settings_mutation_active {
                !r && final(self).deep_view() == old(self).deep_view()
            } else {
                exists|startup: StartupConfig|
                    {
                        &&& #[trigger] call_ensures(load_config, (), startup)
                        &&& commit_answered(
                            old(self).deep_view(),
                            startup.deep_view(),
                            trusted_now,
                            acknowledge,
                            r,
                            final(self).deep_view(),
                        )
                    }
            },
    {
        if !self.window.settings_mutation_active {
            return false;
        }
        let startup: StartupConfig = load_config();
        let ghost loaded = startup;
        assert(call_ensures(load_config, (), loaded));
        self.acknowledge_live_settings_commit_with(startup, trusted_now, acknowledge)
    }
}

/// How a commit may end: it was prepared and acknowledged, or the state is that of the
/// step that failed.
pub open spec fn commit_answered<A: FnOnce() -> Result<(), String>>(
    s: SupervisorView,
    startup: StartupView,
    trusted_now: bool,
    acknowledge: A,
    r: bool,
    after: SupervisorView,
) -> bool {
    let (ready, command) = commit_prepared(s, startup, trusted_now);
    match command {
        None => !r && after == ready,
        Some(command) => exists|answer: Result<(), String>| #[trigger]
            call_ensures(acknowledge, (), answer) && r == (answer is Ok) && after
                == if answer is Ok {
                commit_finished(ready, command, startup.config)
            } else {
                ready
            },
    }
}

// ---------------------------------------------------------------------------
// How long a change waits
// ---------------------------------------------------------------------------

/// What becomes of a settings window that waits to change something.
#[derive(Debug, Clone, Copy, PartialEq, Eq, Structural)]
pub enum MutationStep {
    Wait,
    Refuse,
    Grant,
}

/// A look at the worker's answer to the request of `asked_at`. An answer that comes too
/// late is none, and the pause stays; so it is with one to a change that something else
/// ended meanwhile.
pub open spec fn mutation_polled(
    s: SupervisorView,
    asked_at: u64,
    now: u64,
    request_id: u64,
    reply: QuiescenceReply,
) -> (SupervisorView, MutationStep) {
    if elapsed(asked_at, now) >= SETTINGS_QUIESCENCE_TIMEOUT_MS || !mutation_waits(
        s,
        request_id,
    ) {
        (s, MutationStep::Refuse)
    } else if reply == QuiescenceReply::Waiting {
        (s, MutationStep::Wait)
    } else {
        let (after, ok) = mutation_quiet(s, request_id, reply);
        (
            after,
            if ok {
                MutationStep::Grant
            } else {
                MutationStep::Refuse
            },
        )
    }
}

impl LightweightSupervisor {
    /// `mutation_polled`, computed.
    pub fn poll_settings_mutation_begin(
        &mut self,
        asked_at: u64,
        now: u64,
        request_id: u64,
        reply: QuiescenceReply,
    ) -> (step: MutationStep)
        ensures
            (final(self).deep_view(), step) == mutation_polled(
                old(self).deep_view(),
                asked_at,
                now,
                request_id,
                reply,
            ),
    {
        if elapsed_since(asked_at, now) >= SETTINGS_QUIESCENCE_TIMEOUT_MS
            || !self.settings_mutation_waits(request_id) {
            return MutationStep::Refuse;
        }
        match reply {
            QuiescenceReply::Waiting => MutationStep::Wait,
            _ => {
                if self.finish_settings_mutation_begin(request_id, reply) {
                    MutationStep::Grant
                } else {
                    MutationStep::Refuse
                }
            },
        }
    }
}

// ---------------------------------------------------------------------------
// Laws
// ---------------------------------------------------------------------------

/// A change is granted only in time, by the worker's answer to its own request, and
/// where it still waits; a change of the state in between that blocks the storage or
/// ends the change leaves it refused.
pub proof fn law_granted_change_still_waits(
    s: SupervisorView,
    asked_at: u64,
    now: u64,
    request_id: u64,
    reply: QuiescenceReply,
    trusted_now: bool,
)
    ensures
        mutation_polled(s, asked_at, now, request_id, reply).1 == MutationStep::Grant <==> {
            &&& elapsed(asked_at, now) < SETTINGS_QUIESCENCE_TIMEOUT_MS
            &&& mutation_waits(s, request_id)
            &&& reply == (QuiescenceReply::Acknowledged { request_id })
        },
        mutation_polled(s, asked_at, now, request_id, reply).1 != MutationStep::Grant
            ==> mutation_polled(s, asked_at, now, request_id, reply).0 == s,
        mutation_polled(storage_blocked(s), asked_at, now, request_id, reply).1
            == MutationStep::Refuse,
        mutation_polled(window_ended(s), asked_at, now, request_id, reply).1
            == MutationStep::Refuse,
        mutation_polled(
            mutation_cancelled(s, trusted_now).0,
            asked_at,
            now,
            request_id,
            reply,
        ).1 == MutationStep::Refuse,
{
    reveal(mutation_quiet);
    assert(!storage_blocked(s).window.settings_mutation_active) by {
        reveal(storage_blocked);
        reveal(with_status_shown);
    }
    assert(!window_ended(s).window.settings_mutation_active) by {
        reveal(window_ended);
        reveal(exit_left_storage_open);
    }
    assert(!mutation_cancelled(s, trusted_now).0.window.settings_mutation_active) by {
        reveal(mutation_cancelled);
        reveal(with_fresh_trust);
        reveal(with_status_shown);
        reveal(fresh_start);
    }
}

/// Two reloads that do not differ in what there is a need for.
pub open spec fn same_as_needed(need: ReloadNeed, a: ReloadView, b: ReloadView) -> bool {
    match need {
        ReloadNeed::Nothing => true,
        ReloadNeed::Token => reload_token(a) == reload_token(b) && (a is NoLease) == (
        b is NoLease),
        ReloadNeed::Recovery => a == b,
    }
}

/// What there is no need for makes no difference: where nothing is to be loaded, any
/// reload has the same effect, and where only the token is, what else was loaded has
/// none.
pub proof fn law_only_what_is_needed_counts(
    s: SupervisorView,
    now: u64,
    status: ChildStatus,
    command: MonitorControlCommand,
    trusted_now: bool,
    a: ReloadView,
    b: ReloadView,
)
    ensures
        same_as_needed(exit_need(s, status), a, b) ==> window_polled(
            s,
            now,
            status,
            trusted_now,
            a,
        ) == window_polled(s, now, status, trusted_now, b),
        same_as_needed(request_need(s), a, b) ==> reload_requested(s, a) == reload_requested(s, b),
        same_as_needed(monitor_need(s, command), a, b) ==> monitor_commanded(
            s,
            command,
            trusted_now,
            a,
        ) == monitor_commanded(s, command, trusted_now, b),
        same_as_needed(failed_spawn_need(s), a, b) ==> spawn_failed(s, a) == spawn_failed(s, b),
{
    if same_as_needed(exit_need(s, status), a, b) {
        lemma_exit_as_needed(s, now, status, trusted_now, a, b);
    }
    if same_as_needed(request_need(s), a, b) {
        lemma_request_as_needed(s, a, b);
    }
    if same_as_needed(failed_spawn_need(s), a, b) {
        lemma_failed_spawn_as_needed(s, a, b);
    }
    reveal(monitor_commanded);
}

proof fn lemma_reloaded_as_needed(
    s: SupervisorView,
    a: ReloadView,
    b: ReloadView,
    start_monitor: bool,
)
    requires
        same_as_needed(need_under(s.gate.storage_recovery_sticky_blocked), a, b),
    ensures
        reloaded(s, a, start_monitor) == reloaded(s, b, start_monitor),
{
    reveal(reloaded);
}

proof fn lemma_exit_as_needed(
    s: SupervisorView,
    now: u64,
    status: ChildStatus,
    trusted_now: bool,
    a: ReloadView,
    b: ReloadView,
)
    requires
        same_as_needed(exit_need(s, status), a, b),
    ensures
        window_polled(s, now, status, trusted_now, a) == window_polled(
            s,
            now,
            status,
            trusted_now,
            b,
        ),
{
    reveal(window_polled);
    if exit_need(s, status) == ReloadNeed::Token {
        let ended = without_presentation(window_ended(s));
        assert(ended.gate.storage_recovery_sticky_blocked) by {
            reveal(window_ended);
            reveal(exit_left_storage_open);
            reveal(with_pause);
            reveal(with_invalidation);
        }
        let quiet = with_resume(ended, false);
        lemma_reloaded_as_needed(quiet, a, b, false);
        assert(window_closed(s, now, trusted_now, a) == window_closed(s, now, trusted_now, b)) by {
            reveal(window_closed);
        }
    }
}

proof fn lemma_request_as_needed(s: SupervisorView, a: ReloadView, b: ReloadView)
    requires
        same_as_needed(request_need(s), a, b),
    ensures
        reload_requested(s, a) == reload_requested(s, b),
{
    reveal(reload_requested);
    if !transition_active(s) {
        lemma_reloaded_as_needed(s, a, b, false);
    }
}

proof fn lemma_failed_spawn_as_needed(s: SupervisorView, a: ReloadView, b: ReloadView)
    requires
        same_as_needed(failed_spawn_need(s), a, b),
    ensures
        spawn_failed(s, a) == spawn_failed(s, b),
{
    reveal(spawn_failed);
    reveal(reloaded);
}

/// What is loaded, and when. Whatever is to be loaded, a blocked storage has its token
/// replaced and nothing more. After a window has closed the configuration is loaded, unless
/// the window left a change half-way; so it is at a command, where no window is open or
/// about to open, and after a window that did not start, where the monitor was to go on.
pub proof fn law_what_is_loaded(
    s: SupervisorView,
    status: ChildStatus,
    command: MonitorControlCommand,
)
    ensures
        exit_need(s, status) == if s.window.settings_child is None || status
            != ChildStatus::Exited {
            ReloadNeed::Nothing
        } else if s.gate.storage_recovery_sticky_blocked || s.window.settings_mutation_active {
            ReloadNeed::Token
        } else {
            ReloadNeed::Recovery
        },
        monitor_need(s, command) == if !(command is ReloadConfig) || s.window.settings_child
            is Some || s.window.pending_settings_launch is Some {
            ReloadNeed::Nothing
        } else if s.gate.storage_recovery_sticky_blocked {
            ReloadNeed::Token
        } else {
            ReloadNeed::Recovery
        },
        failed_spawn_need(s) == if s.gate.resume_monitor_after_settings
            && !s.gate.storage_recovery_sticky_blocked {
            ReloadNeed::Recovery
        } else {
            ReloadNeed::Token
        },
{
}

/// A change that still waits is granted when the worker says that it is quiet, within
/// fifteen seconds; until it says something, the wait goes on.
pub proof fn law_a_change_is_granted_in_time(
    s: SupervisorView,
    asked_at: u64,
    now: u64,
    request_id: u64,
)
    requires
        s.window.settings_mutation_active,
        s.window.settings_child_bootstrapped,
        s.window.next_settings_launch_request_id == request_id,
        s.gate.storage_recovery_ready,
        !s.gate.storage_recovery_sticky_blocked,
        asked_at <= now,
    ensures
        ({
            let quiet = QuiescenceReply::Acknowledged { request_id };
            let (t, step) = mutation_polled(s, asked_at, now, request_id, quiet);
            &&& now < asked_at + 15_000 ==> {
                &&& step == MutationStep::Grant
                &&& t.gate.worker_status == WorkerStatus::Idle
                &&& t.window == s.window
                &&& t.commands == s.commands
            }
            &&& now >= asked_at + 15_000 ==> step == MutationStep::Refuse && t == s
        }),
        mutation_polled(s, asked_at, now, request_id, QuiescenceReply::Waiting) == (
            s,
            if now < asked_at + 15_000 {
                MutationStep::Wait
            } else {
                MutationStep::Refuse
            },
        ),
        mutation_polled(s, asked_at, now, request_id, QuiescenceReply::Disconnected) == (
            s,
            MutationStep::Refuse,
        ),
{
    reveal(mutation_quiet);
    reveal(with_status_shown);
}

} // verus!
