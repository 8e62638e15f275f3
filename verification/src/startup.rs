//! What the application starts with: its configuration, and whether the storage of
//! passwords is known to be sound.

use crate::models::AppConfig;
#[allow(unused_imports)]
use crate::models::{default_config, AppSettings, ConfigView};
use vstd::prelude::*;

verus! {

/// A configuration, and whether the storage behind it needs no more recovery.
#[derive(Debug)]
pub struct StartupConfig {
    pub config: AppConfig,
    pub storage_recovery_ready: bool,
}

#[verifier::ext_equal]
pub struct StartupView {
    pub config: ConfigView,
    pub storage_recovery_ready: bool,
}

impl DeepView for StartupConfig {
    type V = StartupView;

    open spec fn deep_view(&self) -> StartupView {
        StartupView {
            config: self.config.deep_view(),
            storage_recovery_ready: self.storage_recovery_ready,
        }
    }
}

/// The same, and whether the configuration is the one that was saved.
#[derive(Debug)]
pub struct StartupConfigLoad {
    pub startup: StartupConfig,
    pub window_preference_known: bool,
}

/// The safe defaults that stand in for a configuration that cannot be had.
pub open spec fn blocked_startup() -> StartupView {
    StartupView { config: default_config(), storage_recovery_ready: false }
}

/// `blocked_startup`, computed.
pub fn blocked_startup_config() -> (out: StartupConfig)
    ensures
        out.deep_view() == blocked_startup(),
{
    StartupConfig { config: AppConfig::default(), storage_recovery_ready: false }
}

/// A configuration with another choice of starting by itself.
pub open spec fn with_auto_start(config: ConfigView, enabled: bool) -> ConfigView {
    ConfigView {
        accounts: config.accounts,
        settings: AppSettings { auto_start: enabled, ..config.settings },
    }
}

/// Takes over whether the application really starts by itself, and says whether the
/// configuration is to be saved for it. What stands in for a configuration that could
/// not be had is never saved.
pub fn sync_startup_auto_start_with(
    startup: &mut StartupConfig,
    auto_start_enabled: bool,
) -> (save: bool)
    ensures
        save == (old(startup).storage_recovery_ready && old(startup).config.settings.auto_start
            != auto_start_enabled),
        final(startup).deep_view() == if save {
            (StartupView {
                config: with_auto_start(old(startup).config.deep_view(), auto_start_enabled),
                storage_recovery_ready: true,
            })
        } else {
            old(startup).deep_view()
        },
{
    if !startup.storage_recovery_ready || startup.config.settings.auto_start
        == auto_start_enabled {
        return false;
    }
    startup.config.settings.auto_start = auto_start_enabled;
    true
}

/// What the settings window starts with, by the configuration that was loaded, whether
/// the application starts by itself, and what was read of the journals and the block.
pub fn load_full_ui_config(
    loaded: Option<AppConfig>,
    auto_start_enabled: bool,
    journals_clear: Option<bool>,
    block_clear: Option<bool>,
) -> (out: StartupConfig)
    ensures
        out.deep_view() == match loaded {
            Some(config) => StartupView {
                config: with_auto_start(config.deep_view(), auto_start_enabled),
                storage_recovery_ready: journals_clear == Some(true) && block_clear == Some(true),
            },
            None => blocked_startup(),
        },
{
    match loaded {
        Some(loaded) => {
            let mut config: AppConfig = loaded;
            config.settings.auto_start = auto_start_enabled;
            let ready: bool = match (journals_clear, block_clear) {
                (Some(journals), Some(block)) => journals && block,
                _ => false,
            };
            StartupConfig { config, storage_recovery_ready: ready }
        },
        None => blocked_startup_config(),
    }
}

/// What a supervisor starts with.
#[derive(Debug)]
pub struct SessionStartup {
    pub startup: StartupConfig,
    /// Only a restart may clear the block.
    pub sticky_blocked: bool,
    pub window_preference_known: bool,
}

/// What a supervisor starts with, by what was loaded; nothing is where another
/// settings session is alive or the storage could not be locked, and that may pass.
pub fn session_startup(load: Option<StartupConfigLoad>) -> (out: SessionStartup)
    ensures
        match load {
            Some(load) => {
                &&& out.startup.deep_view() == load.startup.deep_view()
                &&& out.sticky_blocked == !load.startup.storage_recovery_ready
                &&& out.window_preference_known == load.window_preference_known
            },
            None => {
                &&& out.startup.deep_view() == blocked_startup()
                &&& !out.sticky_blocked
                &&& !out.window_preference_known
            },
        },
{
    match load {
        Some(load) => {
            let sticky_blocked: bool = !load.startup.storage_recovery_ready;
            SessionStartup {
                startup: load.startup,
                sticky_blocked,
                window_preference_known: load.window_preference_known,
            }
        },
        None => SessionStartup {
            startup: blocked_startup_config(),
            sticky_blocked: false,
            window_preference_known: false,
        },
    }
}

// ---------------------------------------------------------------------------
// Recovery
// ---------------------------------------------------------------------------

#[derive(Debug, Clone, Copy, PartialEq, Eq, Structural)]
pub enum RecoveryStage {
    Load,
    ReconcilePending,
    ReadJournals,
    ReconcileStaged,
    ClearBlock,
    ReadBlock,
    CheckBlock,
    Done,
}

/// What is to be done with the storage next.
#[derive(Debug, Clone, Copy, PartialEq, Eq, Structural)]
pub enum RecoveryAction {
    LoadConfig,
    /// Finish or undo the operations that the journals hold.
    ReconcilePending,
    /// Read whether the journals are empty.
    ReadJournals,
    /// Hold the staged keys against the password file that won.
    ReconcileStaged,
    /// Take away the mark that blocks the storage.
    ClearBlock,
    /// Read whether the mark is gone.
    ReadBlock,
    Finished,
}

/// What came of it; what failed or could not be read is `None` or `false`.
pub enum RecoveryEvent {
    Loaded(Option<ConfigView>),
    Reconciled(ConfigView, bool),
    Journals(Option<bool>),
    Staged(bool),
    Cleared(bool),
    Block(Option<bool>),
}

/// A load of the configuration with the recovery of the storage behind it.
#[derive(Debug)]
pub struct RecoveryRun {
    pub stage: RecoveryStage,
    /// Whether the mark of an earlier run is to be taken away.
    pub clear_startup_block: bool,
    pub config: AppConfig,
    pub ready: bool,
    pub known: bool,
}

#[verifier::ext_equal]
pub struct RecoveryView {
    pub stage: RecoveryStage,
    pub clear_startup_block: bool,
    pub config: ConfigView,
    pub ready: bool,
    pub known: bool,
}

impl DeepView for RecoveryRun {
    type V = RecoveryView;

    open spec fn deep_view(&self) -> RecoveryView {
        RecoveryView {
            stage: self.stage,
            clear_startup_block: self.clear_startup_block,
            config: self.config.deep_view(),
            ready: self.ready,
            known: self.known,
        }
    }
}

pub open spec fn recovery_start(clear_startup_block: bool) -> RecoveryView {
    RecoveryView {
        stage: RecoveryStage::Load,
        clear_startup_block,
        config: default_config(),
        ready: false,
        known: false,
    }
}

pub open spec fn at_recovery(f: RecoveryView, stage: RecoveryStage) -> RecoveryView {
    RecoveryView { stage, ..f }
}

/// One step of a recovery. What fails ends it, with the storage blocked; what does not
/// belong to the stage changes nothing.
pub open spec fn recovery_next(f: RecoveryView, e: RecoveryEvent) -> RecoveryView {
    match (f.stage, e) {
        (RecoveryStage::Load, RecoveryEvent::Loaded(Some(config))) => RecoveryView {
            stage: RecoveryStage::ReconcilePending,
            config,
            known: true,
            ..f
        },
        (RecoveryStage::Load, RecoveryEvent::Loaded(None)) => at_recovery(f, RecoveryStage::Done),
        (RecoveryStage::ReconcilePending, RecoveryEvent::Reconciled(config, ok)) => RecoveryView {
            stage: if ok {
                RecoveryStage::ReadJournals
            } else {
                RecoveryStage::Done
            },
            config,
            ..f
        },
        (RecoveryStage::ReadJournals, RecoveryEvent::Journals(clear)) => at_recovery(
            f,
            if clear == Some(true) {
                RecoveryStage::ReconcileStaged
            } else {
                RecoveryStage::Done
            },
        ),
        (RecoveryStage::ReconcileStaged, RecoveryEvent::Staged(ok)) => at_recovery(
            f,
            if !ok {
                RecoveryStage::Done
            } else if f.clear_startup_block {
                RecoveryStage::ClearBlock
            } else {
                RecoveryStage::ReadBlock
            },
        ),
        (RecoveryStage::ClearBlock, RecoveryEvent::Cleared(ok)) => at_recovery(
            f,
            if ok {
                RecoveryStage::CheckBlock
            } else {
                RecoveryStage::Done
            },
        ),
        (RecoveryStage::ReadBlock, RecoveryEvent::Block(clear)) => at_recovery(
            f,
            if clear == Some(true) {
                RecoveryStage::CheckBlock
            } else {
                RecoveryStage::Done
            },
        ),
        (RecoveryStage::CheckBlock, RecoveryEvent::Block(clear)) => RecoveryView {
            stage: RecoveryStage::Done,
            ready: clear == Some(true),
            ..f
        },
        _ => f,
    }
}

pub open spec fn recovery_action(stage: RecoveryStage) -> RecoveryAction {
    match stage {
        RecoveryStage::Load => RecoveryAction::LoadConfig,
        RecoveryStage::ReconcilePending => RecoveryAction::ReconcilePending,
        RecoveryStage::ReadJournals => RecoveryAction::ReadJournals,
        RecoveryStage::ReconcileStaged => RecoveryAction::ReconcileStaged,
        RecoveryStage::ClearBlock => RecoveryAction::ClearBlock,
        RecoveryStage::ReadBlock => RecoveryAction::ReadBlock,
        RecoveryStage::CheckBlock => RecoveryAction::ReadBlock,
        RecoveryStage::Done => RecoveryAction::Finished,
    }
}

impl RecoveryRun {
    pub fn load_config_with_storage_recovery(clear_startup_block: bool) -> (out: Self)
        ensures
            out.deep_view() == recovery_start(clear_startup_block),
    {
        RecoveryRun {
            stage: RecoveryStage::Load,
            clear_startup_block,
            config: AppConfig::default(),
            ready: false,
            known: false,
        }
    }

    /// `recovery_action`, computed.
    pub fn action(&self) -> (out: RecoveryAction)
        ensures
            out == recovery_action(self.stage),
    {
        match self.stage {
            RecoveryStage::Load => RecoveryAction::LoadConfig,
            RecoveryStage::ReconcilePending => RecoveryAction::ReconcilePending,
            RecoveryStage::ReadJournals => RecoveryAction::ReadJournals,
            RecoveryStage::ReconcileStaged => RecoveryAction::ReconcileStaged,
            RecoveryStage::ClearBlock => RecoveryAction::ClearBlock,
            RecoveryStage::ReadBlock => RecoveryAction::ReadBlock,
            RecoveryStage::CheckBlock => RecoveryAction::ReadBlock,
            RecoveryStage::Done => RecoveryAction::Finished,
        }
    }

    /// The configuration was loaded, or could not be.
    pub fn on_loaded(&mut self, loaded: Option<AppConfig>)
        ensures
            final(self).deep_view() == recovery_next(
                old(self).deep_view(),
                RecoveryEvent::Loaded(loaded.deep_view()),
            ),
    {
        match self.stage {
            RecoveryStage::Load => {
                match loaded {
                    Some(config) => {
                        self.config = config;
                        self.known = true;
                        self.stage = RecoveryStage::ReconcilePending;
                    },
                    None => {
                        self.stage = RecoveryStage::Done;
                    },
                }
            },
            _ => {},
        }
    }

    /// The pending operations were reconciled, which may have changed the
    /// configuration, or not all of them could be.
    pub fn on_reconciled(&mut self, config: AppConfig, ok: bool)
        ensures
            final(self).deep_view() == recovery_next(
                old(self).deep_view(),
                RecoveryEvent::Reconciled(config.deep_view(), ok),
            ),
    {
        match self.stage {
            RecoveryStage::ReconcilePending => {
                self.config = config;
                self.stage = if ok {
                    RecoveryStage::ReadJournals
                } else {
                    RecoveryStage::Done
                };
            },
            _ => {},
        }
    }

    /// Whether the journals are clear was read.
    pub fn on_journals(&mut self, clear: Option<bool>)
        ensures
            final(self).deep_view() == recovery_next(
                old(self).deep_view(),
                RecoveryEvent::Journals(clear),
            ),
    {
        match self.stage {
            RecoveryStage::ReadJournals => {
                self.stage = match clear {
                    Some(true) => RecoveryStage::ReconcileStaged,
                    _ => RecoveryStage::Done,
                };
            },
            _ => {},
        }
    }

    /// The staged keys were reconciled, or could not be.
    pub fn on_staged(&mut self, ok: bool)
        ensures
            final(self).deep_view() == recovery_next(
                old(self).deep_view(),
                RecoveryEvent::Staged(ok),
            ),
    {
        match self.stage {
            RecoveryStage::ReconcileStaged => {
                self.stage = if !ok {
                    RecoveryStage::Done
                } else if self.clear_startup_block {
                    RecoveryStage::ClearBlock
                } else {
                    RecoveryStage::ReadBlock
                };
            },
            _ => {},
        }
    }

    /// The block was cleared, or could not be.
    pub fn on_cleared(&mut self, ok: bool)
        ensures
            final(self).deep_view() == recovery_next(
                old(self).deep_view(),
                RecoveryEvent::Cleared(ok),
            ),
    {
        match self.stage {
            RecoveryStage::ClearBlock => {
                self.stage = if ok {
                    RecoveryStage::CheckBlock
                } else {
                    RecoveryStage::Done
                };
            },
            _ => {},
        }
    }

    /// Whether the block is gone was read.
    pub fn on_block(&mut self, clear: Option<bool>)
        ensures
            final(self).deep_view() == recovery_next(
                old(self).deep_view(),
                RecoveryEvent::Block(clear),
            ),
    {
        let gone: bool = match clear {
            Some(clear) => clear,
            None => false,
        };
        match self.stage {
            RecoveryStage::ReadBlock => {
                self.stage = if gone {
                    RecoveryStage::CheckBlock
                } else {
                    RecoveryStage::Done
                };
            },
            RecoveryStage::CheckBlock => {
                self.ready = gone;
                self.stage = RecoveryStage::Done;
            },
            _ => {},
        }
    }

    /// What was loaded, and whether the storage is sound.
    pub fn finish(self) -> (out: StartupConfigLoad)
        ensures
            out.startup.config.deep_view() == self.config.deep_view(),
            out.startup.storage_recovery_ready == self.ready,
            out.window_preference_known == self.known,
    {
        StartupConfigLoad {
            startup: StartupConfig { config: self.config, storage_recovery_ready: self.ready },
            window_preference_known: self.known,
        }
    }
}

/// A whole recovery.
pub open spec fn recovery_run(clear_startup_block: bool, events: Seq<RecoveryEvent>) -> RecoveryView
    decreases events.len(),
{
    if events.len() == 0 {
        recovery_start(clear_startup_block)
    } else {
        recovery_next(recovery_run(clear_startup_block, events.drop_last()), events.last())
    }
}

/// The journals were found clear and the staged keys were reconciled.
pub open spec fn recovered(events: Seq<RecoveryEvent>) -> bool {
    &&& exists|config: ConfigView| #[trigger]
        events.contains(RecoveryEvent::Reconciled(config, true))
    &&& events.contains(RecoveryEvent::Journals(Some(true)))
    &&& events.contains(RecoveryEvent::Staged(true))
}

proof fn lemma_contains_more(events: Seq<RecoveryEvent>, e: RecoveryEvent)
    requires
        events.len() > 0,
        events.drop_last().contains(e),
    ensures
        events.contains(e),
{
    let i = choose|i: int| 0 <= i < events.drop_last().len() && events.drop_last()[i] == e;
    assert(events[i] == e);
}

proof fn lemma_recovery_evidence(clear_startup_block: bool, events: Seq<RecoveryEvent>)
    ensures
        ({
            let f = recovery_run(clear_startup_block, events);
            let late = f.stage == RecoveryStage::ClearBlock || f.stage == RecoveryStage::ReadBlock
                || f.stage == RecoveryStage::CheckBlock || f.ready;
            &&& f.clear_startup_block == clear_startup_block
            &&& f.ready ==> f.known && f.stage == RecoveryStage::Done
            &&& f.ready ==> events.contains(RecoveryEvent::Block(Some(true)))
            &&& f.stage != RecoveryStage::Load && f.stage != RecoveryStage::Done ==> f.known
            &&& late || f.stage == RecoveryStage::ReadJournals || f.stage
                == RecoveryStage::ReconcileStaged ==> exists|config: ConfigView| #[trigger]
                events.contains(RecoveryEvent::Reconciled(config, true))
            &&& late || f.stage == RecoveryStage::ReconcileStaged ==> events.contains(
                RecoveryEvent::Journals(Some(true)),
            )
            &&& late ==> events.contains(RecoveryEvent::Staged(true))
        }),
    decreases events.len(),
{
    if events.len() > 0 {
        let before = events.drop_last();
        let f = recovery_run(clear_startup_block, before);
        let e = events.last();
        lemma_recovery_evidence(clear_startup_block, before);
        assert(events[events.len() - 1] == e);
        assert(events.contains(e));
        if before.contains(RecoveryEvent::Journals(Some(true))) {
            lemma_contains_more(events, RecoveryEvent::Journals(Some(true)));
        }
        if before.contains(RecoveryEvent::Staged(true)) {
            lemma_contains_more(events, RecoveryEvent::Staged(true));
        }
        if before.contains(RecoveryEvent::Block(Some(true))) {
            lemma_contains_more(events, RecoveryEvent::Block(Some(true)));
        }
        if exists|config: ConfigView| #[trigger]
            before.contains(RecoveryEvent::Reconciled(config, true)) {
            let config = choose|config: ConfigView| #[trigger]
                before.contains(RecoveryEvent::Reconciled(config, true));
            lemma_contains_more(events, RecoveryEvent::Reconciled(config, true));
        }
    }
}

/// The block is only ever taken away at a start that is to do so, and after the
/// pending operations and the staged keys were reconciled and the journals found clear.
pub proof fn law_block_is_cleared_last(clear_startup_block: bool, events: Seq<RecoveryEvent>)
    requires
        recovery_action(recovery_run(clear_startup_block, events).stage)
            == RecoveryAction::ClearBlock,
    ensures
        clear_startup_block,
        recovered(events),
    decreases events.len(),
{
    lemma_recovery_evidence(clear_startup_block, events);
    let before = events.drop_last();
    assert(events.len() > 0);
    if recovery_run(clear_startup_block, before).stage == RecoveryStage::ClearBlock {
        law_block_is_cleared_last(clear_startup_block, before);
    } else {
        lemma_recovery_evidence(clear_startup_block, before);
    }
}

/// The storage counts as sound only where the configuration is the saved one, every
/// step of the recovery went well, and the block was found gone at the end.
pub proof fn law_ready_needs_a_whole_recovery(
    clear_startup_block: bool,
    events: Seq<RecoveryEvent>,
)
    requires
        recovery_run(clear_startup_block, events).ready,
    ensures
        recovery_run(clear_startup_block, events).known,
        recovered(events),
        events.contains(RecoveryEvent::Block(Some(true))),
{
    lemma_recovery_evidence(clear_startup_block, events);
}

// ---------------------------------------------------------------------------
// The settings window
// ---------------------------------------------------------------------------

/// Gets the lease of a settings session. The supervisor has to acknowledge this very
/// process first; only then is the token looked at, and the lease asked for with it.
pub fn acquire_authorized_settings_session_with<Token, Lease, L, R, A>(
    load_token: L,
    request_supervisor_bootstrap: R,
    acquire_lease: A,
) -> (out: Result<Lease, String>) where
    L: FnOnce() -> Result<Token, String>,
    R: FnOnce() -> Result<(), String>,
    A: FnOnce(&Token) -> Result<Lease, String>,

    requires
        call_requires(request_supervisor_bootstrap, ()),
        forall|booted: Result<(), String>| #[trigger]
            call_ensures(request_supervisor_bootstrap, (), booted) && booted is Ok
                ==> call_requires(load_token, ()),
        forall|booted: Result<(), String>, token: Token| #[trigger]
            call_ensures(request_supervisor_bootstrap, (), booted) && booted is Ok && #[trigger]
            call_ensures(load_token, (), Ok::<Token, String>(token))
                ==> call_requires(acquire_lease, (&token,)),
    ensures
        exists|booted: Result<(), String>| #[trigger]
            call_ensures(request_supervisor_bootstrap, (), booted) && match booted {
                Err(error) => out == Err::<Lease, String>(error),
                Ok(_) => exists|loaded: Result<Token, String>| #[trigger]
                    call_ensures(load_token, (), loaded) && match loaded {
                        Err(error) => out == Err::<Lease, String>(error),
                        Ok(token) => call_ensures(acquire_lease, (&token,), out),
                    },
            },
{
    if let Err(error) = request_supervisor_bootstrap() {
        return Err(error);
    }
    match load_token() {
        Ok(token) => acquire_lease(&token),
        Err(error) => Err(error),
    }
}

/// Clears the status that an earlier process may have left behind.
pub fn publish_initial_monitor_status<W: FnOnce(bool) -> Result<(), String>>(
    write_monitor_status: W,
) -> (out: Result<(), String>)
    requires
        call_requires(write_monitor_status, (false,)),
    ensures
        call_ensures(write_monitor_status, (false,), out),
{
    write_monitor_status(false)
}

/// The events of a recovery in which nothing goes wrong.
pub open spec fn sound_recovery(
    clear_startup_block: bool,
    loaded: ConfigView,
    reconciled: ConfigView,
) -> Seq<RecoveryEvent> {
    seq![
        RecoveryEvent::Loaded(Some(loaded)),
        RecoveryEvent::Reconciled(reconciled, true),
        RecoveryEvent::Journals(Some(true)),
        RecoveryEvent::Staged(true),
        if clear_startup_block {
            RecoveryEvent::Cleared(true)
        } else {
            RecoveryEvent::Block(Some(true))
        },
        RecoveryEvent::Block(Some(true)),
    ]
}

/// What a recovery does after each of these.
pub open spec fn recovery_steps(clear_startup_block: bool) -> Seq<RecoveryAction> {
    seq![
        RecoveryAction::LoadConfig,
        RecoveryAction::ReconcilePending,
        RecoveryAction::ReadJournals,
        RecoveryAction::ReconcileStaged,
        if clear_startup_block {
            RecoveryAction::ClearBlock
        } else {
            RecoveryAction::ReadBlock
        },
        RecoveryAction::ReadBlock,
        RecoveryAction::Finished,
    ]
}

proof fn lemma_sound_recovery(
    clear_startup_block: bool,
    loaded: ConfigView,
    reconciled: ConfigView,
    n: int,
)
    requires
        0 <= n <= 6,
    ensures
        ({
            let r = recovery_run(
                clear_startup_block,
                sound_recovery(clear_startup_block, loaded, reconciled).take(n),
            );
            &&& r.clear_startup_block == clear_startup_block
            &&& r.stage == (if n == 0 {
                RecoveryStage::Load
            } else if n == 1 {
                RecoveryStage::ReconcilePending
            } else if n == 2 {
                RecoveryStage::ReadJournals
            } else if n == 3 {
                RecoveryStage::ReconcileStaged
            } else if n == 4 && clear_startup_block {
                RecoveryStage::ClearBlock
            } else if n == 4 {
                RecoveryStage::ReadBlock
            } else if n == 5 {
                RecoveryStage::CheckBlock
            } else {
                RecoveryStage::Done
            })
            &&& r.ready == (n == 6)
            &&& r.known == (n > 0)
            &&& n == 0 ==> r.config == default_config()
            &&& n == 1 ==> r.config == loaded
            &&& n >= 2 ==> r.config == reconciled
        }),
    decreases n,
{
    let es = sound_recovery(clear_startup_block, loaded, reconciled);
    if n > 0 {
        lemma_sound_recovery(clear_startup_block, loaded, reconciled, n - 1);
        assert(es.take(n).drop_last() =~= es.take(n - 1));
        assert(es.take(n).last() == es[n - 1]);
    }
}

/// A recovery in which nothing goes wrong loads the configuration, reconciles what was
/// pending, finds the journals empty, reconciles the staged keys, takes the block away at
/// a start that is to do so and otherwise finds it gone, finds it gone at the end, and
/// then has a sound storage with the configuration as it was reconciled.
pub proof fn law_a_sound_recovery_is_ready(
    clear_startup_block: bool,
    loaded: ConfigView,
    reconciled: ConfigView,
)
    ensures
        ({
            let es = sound_recovery(clear_startup_block, loaded, reconciled);
            let done = recovery_run(clear_startup_block, es);
            &&& forall|n: int|
                0 <= n <= 6 ==> recovery_action(
                    recovery_run(clear_startup_block, #[trigger] es.take(n)).stage,
                ) == recovery_steps(clear_startup_block)[n]
            &&& done.ready
            &&& done.known
            &&& done.config == reconciled
        }),
{
    let es = sound_recovery(clear_startup_block, loaded, reconciled);
    assert forall|n: int| 0 <= n <= 6 implies recovery_action(
        recovery_run(clear_startup_block, #[trigger] es.take(n)).stage,
    ) == recovery_steps(clear_startup_block)[n] by {
        lemma_sound_recovery(clear_startup_block, loaded, reconciled, n);
    }
    lemma_sound_recovery(clear_startup_block, loaded, reconciled, 6);
    assert(es.take(6) =~= es);
}

/// A step that failed, or that could not be read.
pub open spec fn goes_wrong(n: int, e: RecoveryEvent, clear_startup_block: bool) -> bool {
    ||| n == 0 && e == RecoveryEvent::Loaded(None)
    ||| n == 1 && (e matches RecoveryEvent::Reconciled(_, ok) && !ok)
    ||| n == 2 && (e matches RecoveryEvent::Journals(clear) && clear != Some(true))
    ||| n == 3 && e == RecoveryEvent::Staged(false)
    ||| n == 4 && clear_startup_block && e == RecoveryEvent::Cleared(false)
    ||| n == 4 && !clear_startup_block && (e matches RecoveryEvent::Block(clear) && clear != Some(
        true,
    ))
    ||| n == 5 && (e matches RecoveryEvent::Block(clear) && clear != Some(true))
}

/// The first step that goes wrong ends a recovery: the storage is not sound, and the
/// configuration is the last one that was had, known wherever one was loaded.
pub proof fn law_a_recovery_ends_where_it_goes_wrong(
    clear_startup_block: bool,
    loaded: ConfigView,
    reconciled: ConfigView,
    n: int,
    e: RecoveryEvent,
)
    requires
        0 <= n <= 5,
        goes_wrong(n, e, clear_startup_block),
    ensures
        ({
            let es = sound_recovery(clear_startup_block, loaded, reconciled).take(n).push(e);
            let done = recovery_run(clear_startup_block, es);
            &&& recovery_action(done.stage) == RecoveryAction::Finished
            &&& !done.ready
            &&& done.known == (n > 0)
            &&& n == 0 ==> {
                &&& done.config.accounts.len() == 0
                &&& done.config.settings.poll_interval_secs == 1
                &&& !done.config.settings.auto_start
                &&& !done.config.settings.start_minimized
                &&& done.config.settings.use_keyring
            }
            &&& n == 1 ==> (e matches RecoveryEvent::Reconciled(config, _) && done.config
                == config)
            &&& n >= 2 ==> done.config == reconciled
        }),
{
    let front = sound_recovery(clear_startup_block, loaded, reconciled).take(n);
    lemma_sound_recovery(clear_startup_block, loaded, reconciled, n);
    assert(front.push(e).drop_last() =~= front);
}

/// Whether the application starts by itself is all that is taken over.
pub proof fn law_only_the_start_is_taken_over(config: ConfigView, enabled: bool)
    ensures
        ({
            let t = with_auto_start(config, enabled);
            &&& t.accounts == config.accounts
            &&& t.settings.auto_start == enabled
            &&& t.settings.poll_interval_secs == config.settings.poll_interval_secs
            &&& t.settings.start_minimized == config.settings.start_minimized
            &&& t.settings.use_keyring == config.settings.use_keyring
        }),
{
}

/// What was not asked for changes nothing: an answer counts only where it was waited for.
pub proof fn law_a_recovery_takes_what_it_asked_for(f: RecoveryView, e: RecoveryEvent)
    requires
        match recovery_action(f.stage) {
            RecoveryAction::LoadConfig => !(e is Loaded),
            RecoveryAction::ReconcilePending => !(e is Reconciled),
            RecoveryAction::ReadJournals => !(e is Journals),
            RecoveryAction::ReconcileStaged => !(e is Staged),
            RecoveryAction::ClearBlock => !(e is Cleared),
            RecoveryAction::ReadBlock => !(e is Block),
            RecoveryAction::Finished => true,
        },
    ensures
        recovery_next(f, e) == f,
{
}

} // verus!
