//! The life of a run: connecting, watching the link, cleaning up after it, and
//! connecting again.

use crate::resolve::{ResolvedConfig, ResolvedView};
use crate::text::{copy, opt_text};
use vstd::prelude::*;
use vstd::string::*;

verus! {

/// How much is logged.
#[derive(Debug, Clone, Copy, PartialEq, Eq, Structural)]
pub enum LogLevel {
    Info,
    Debug,
    Trace,
}

/// How much is logged when it was asked for more so many times.
pub fn log_level(verbose: u8) -> (r: LogLevel)
    ensures
        r == (if verbose == 0 {
            LogLevel::Info
        } else if verbose == 1 {
            LogLevel::Debug
        } else {
            LogLevel::Trace
        }),
{
    match verbose {
        0 => LogLevel::Info,
        1 => LogLevel::Debug,
        _ => LogLevel::Trace,
    }
}

/// How long the server may take to clean up when the link is lost, in seconds.
pub const LOSS_CLEANUP_SECS: u64 = 2;

/// How long the server may take to clean up before the end, in seconds.
pub const EXIT_CLEANUP_SECS: u64 = 4;

/// The exit status after a second interrupt.
pub const FORCED_EXIT: u8 = 130;

/// What the next thing to do is.
#[derive(Debug, Clone, PartialEq, Eq)]
pub enum RunAction {
    /// Connect to the server.
    Connect,
    /// Start the tunnels.
    StartTunnels,
    /// Run the commands that follow.
    RunHooks,
    /// Watch the link and the tunnels until one ends, and stop them all.
    Watch,
    /// Clean up on the server, for at most so many seconds.
    Clean(u64),
    /// Clean up on the server, for at most so many seconds, or until the next
    /// interrupt.
    LastClean(u64),
    /// Remove this device.
    RemoveDevice(String),
    /// Wait for so many seconds.
    Wait(u64),
    /// Exit with this status.
    Exit(u8),
}

/// The model of a `RunAction`.
pub enum RunActionView {
    Connect,
    StartTunnels,
    RunHooks,
    Watch,
    Clean(u64),
    LastClean(u64),
    RemoveDevice(Seq<char>),
    Wait(u64),
    Exit(u8),
}

impl View for RunAction {
    type V = RunActionView;

    open spec fn view(&self) -> RunActionView {
        match self {
            RunAction::Connect => RunActionView::Connect,
            RunAction::StartTunnels => RunActionView::StartTunnels,
            RunAction::RunHooks => RunActionView::RunHooks,
            RunAction::Watch => RunActionView::Watch,
            RunAction::Clean(t) => RunActionView::Clean(*t),
            RunAction::LastClean(t) => RunActionView::LastClean(*t),
            RunAction::RemoveDevice(d) => RunActionView::RemoveDevice(d@),
            RunAction::Wait(t) => RunActionView::Wait(*t),
            RunAction::Exit(c) => RunActionView::Exit(*c),
        }
    }
}

/// How an action went.
#[derive(Debug, Clone, Copy, PartialEq, Eq, Structural)]
pub enum RunOutcome {
    /// It was done.
    Done,
    /// It failed.
    Failed,
    /// The user interrupted it.
    Interrupted,
}

/// What a run is about.
#[derive(Debug, Clone, Copy, PartialEq, Eq, Structural)]
pub enum RunStage {
    /// A connection is made.
    Connect,
    /// The tunnels are started.
    Start,
    /// The commands that follow are run.
    Hooks,
    /// The link is watched.
    Watch,
    /// The server cleans up after a lost link.
    Clean,
    /// The device is removed after a lost link.
    Remove,
    /// It waits before it connects again.
    Wait,
    /// The server cleans up before the end.
    LastClean,
    /// The device is removed before the end.
    LastRemove,
    /// It has ended with this status.
    Ended(u8),
}

/// A run.
pub struct Supervisor {
    device: Option<String>,
    reconnect_interval: u64,
    stage: RunStage,
}

/// The model of a `Supervisor`.
pub struct SupervisorView {
    pub device: Option<Seq<char>>,
    pub reconnect_interval: u64,
    pub stage: RunStage,
}

impl View for Supervisor {
    type V = SupervisorView;

    closed spec fn view(&self) -> SupervisorView {
        SupervisorView {
            device: opt_text(self.device),
            reconnect_interval: self.reconnect_interval,
            stage: self.stage,
        }
    }
}

/// The device to remove after a connection: the local one of an automatic
/// tunnel.
pub open spec fn own_device(c: ResolvedView) -> Option<Seq<char>> {
    match c.tun_forward {
        Some(t) => if t.auto_id is Some {
            Some(t.local_tun)
        } else {
            None
        },
        None => None,
    }
}

/// How a run starts.
pub open spec fn run_start(c: ResolvedView) -> SupervisorView {
    SupervisorView {
        device: own_device(c),
        reconnect_interval: c.reconnect_interval,
        stage: RunStage::Connect,
    }
}

/// What to do next.
pub open spec fn run_action(s: SupervisorView) -> RunActionView {
    let device = match s.device {
        Some(d) => d,
        None => seq![],
    };
    match s.stage {
        RunStage::Connect => RunActionView::Connect,
        RunStage::Start => RunActionView::StartTunnels,
        RunStage::Hooks => RunActionView::RunHooks,
        RunStage::Watch => RunActionView::Watch,
        RunStage::Clean => RunActionView::Clean(LOSS_CLEANUP_SECS),
        RunStage::Remove => RunActionView::RemoveDevice(device),
        RunStage::Wait => RunActionView::Wait(s.reconnect_interval),
        RunStage::LastClean => RunActionView::LastClean(EXIT_CLEANUP_SECS),
        RunStage::LastRemove => RunActionView::RemoveDevice(device),
        RunStage::Ended(status) => RunActionView::Exit(status),
    }
}

/// The stage that follows an outcome. Only a connection that stands has anything
/// to clean up, and only while the link is watched does an interrupt end the
/// run; another one cuts the cleaning up short.
pub open spec fn run_stage_after(s: SupervisorView, o: RunOutcome) -> RunStage {
    match s.stage {
        RunStage::Connect => if o == RunOutcome::Done {
            RunStage::Start
        } else {
            RunStage::Wait
        },
        RunStage::Start => if o == RunOutcome::Done {
            RunStage::Hooks
        } else {
            RunStage::Wait
        },
        RunStage::Hooks => RunStage::Watch,
        RunStage::Watch => if o == RunOutcome::Interrupted {
            if s.device is Some {
                RunStage::LastClean
            } else {
                RunStage::Ended(0)
            }
        } else {
            if s.device is Some {
                RunStage::Clean
            } else {
                RunStage::Wait
            }
        },
        RunStage::Clean => RunStage::Remove,
        RunStage::Remove => RunStage::Wait,
        RunStage::Wait => RunStage::Connect,
        RunStage::LastClean => if o == RunOutcome::Interrupted {
            RunStage::Ended(FORCED_EXIT)
        } else {
            RunStage::LastRemove
        },
        RunStage::LastRemove => RunStage::Ended(0),
        RunStage::Ended(status) => RunStage::Ended(status),
    }
}

/// The state that follows an outcome.
pub open spec fn run_next(s: SupervisorView, o: RunOutcome) -> SupervisorView {
    SupervisorView { stage: run_stage_after(s, o), ..s }
}

/// The state that follows several outcomes.
pub open spec fn run_after(s: SupervisorView, outcomes: Seq<RunOutcome>) -> SupervisorView
    decreases outcomes.len(),
{
    if outcomes.len() == 0 {
        s
    } else {
        run_next(run_after(s, outcomes.drop_last()), outcomes.last())
    }
}

impl Supervisor {
    /// Starts a run.
    pub fn start(config: &ResolvedConfig) -> (r: Supervisor)
        ensures
            r@ == run_start(config@),
    {
        let device = match &config.tun_forward {
            Some(t) => if t.auto_id.is_some() {
                Some(copy(t.local_tun.as_str()))
            } else {
                None
            },
            None => None,
        };
        Supervisor {
            device,
            reconnect_interval: config.reconnect_interval,
            stage: RunStage::Connect,
        }
    }

    fn removal(&self) -> (r: RunAction)
        ensures
            r@ == RunActionView::RemoveDevice(
                match self@.device {
                    Some(d) => d,
                    None => seq![],
                },
            ),
    {
        match &self.device {
            Some(d) => RunAction::RemoveDevice(copy(d.as_str())),
            None => RunAction::RemoveDevice(String::new()),
        }
    }

    /// What to do next.
    pub fn action(&self) -> (r: RunAction)
        ensures
            r@ == run_action(self@),
    {
        match self.stage {
            RunStage::Connect => RunAction::Connect,
            RunStage::Start => RunAction::StartTunnels,
            RunStage::Hooks => RunAction::RunHooks,
            RunStage::Watch => RunAction::Watch,
            RunStage::Clean => RunAction::Clean(LOSS_CLEANUP_SECS),
            RunStage::Remove => self.removal(),
            RunStage::Wait => RunAction::Wait(self.reconnect_interval),
            RunStage::LastClean => RunAction::LastClean(EXIT_CLEANUP_SECS),
            RunStage::LastRemove => self.removal(),
            RunStage::Ended(status) => RunAction::Exit(status),
        }
    }

    /// Goes on after the action that was to be done next.
    pub fn advance(&mut self, outcome: RunOutcome)
        ensures
            final(self)@ == run_next(old(self)@, outcome),
    {
        let done = match outcome {
            RunOutcome::Done => true,
            _ => false,
        };
        let interrupted = match outcome {
            RunOutcome::Interrupted => true,
            _ => false,
        };
        self.stage = match self.stage {
            RunStage::Connect => if done {
                RunStage::Start
            } else {
                RunStage::Wait
            },
            RunStage::Start => if done {
                RunStage::Hooks
            } else {
                RunStage::Wait
            },
            RunStage::Hooks => RunStage::Watch,
            RunStage::Watch => match (interrupted, self.device.is_some()) {
                (true, true) => RunStage::LastClean,
                (true, false) => RunStage::Ended(0),
                (false, true) => RunStage::Clean,
                (false, false) => RunStage::Wait,
            },
            RunStage::Clean => RunStage::Remove,
            RunStage::Remove => RunStage::Wait,
            RunStage::Wait => RunStage::Connect,
            RunStage::LastClean => if interrupted {
                RunStage::Ended(FORCED_EXIT)
            } else {
                RunStage::LastRemove
            },
            RunStage::LastRemove => RunStage::Ended(0),
            RunStage::Ended(status) => RunStage::Ended(status),
        };
    }
}

/// A run ends only because the user interrupted it; whatever fails, it goes on.
pub proof fn only_interrupt_ends_run(c: ResolvedView, outcomes: Seq<RunOutcome>)
    requires
        !outcomes.contains(RunOutcome::Interrupted),
    ensures
        !(run_action(run_after(run_start(c), outcomes)) is Exit),
{
    lemma_goes_on(c, outcomes);
}

proof fn lemma_goes_on(c: ResolvedView, outcomes: Seq<RunOutcome>)
    requires
        !outcomes.contains(RunOutcome::Interrupted),
    ensures
        ({
            let stage = run_after(run_start(c), outcomes).stage;
            !(stage is Ended) && !(stage is LastClean) && !(stage is LastRemove)
        }),
    decreases outcomes.len(),
{
    if outcomes.len() > 0 {
        let head = outcomes.drop_last();
        assert forall|i: int| 0 <= i < head.len() implies head[i] != RunOutcome::Interrupted by {
            assert(outcomes.contains(outcomes[i]));
        }
        lemma_goes_on(c, head);
        assert(outcomes.contains(outcomes.last()));
    }
}

/// Whether only a device of its own is removed, and only after a connection with
/// one is cleaned up.
pub open spec fn run_sound(s: SupervisorView) -> bool {
    s.stage is Clean || s.stage is Remove || s.stage is LastClean || s.stage is LastRemove
        ==> s.device is Some
}

/// Whatever happens, a run cleans up and removes a device only where the tunnel
/// is an automatic one.
pub proof fn only_own_device_is_removed(c: ResolvedView, outcomes: Seq<RunOutcome>)
    ensures
        run_sound(run_after(run_start(c), outcomes)),
    decreases outcomes.len(),
{
    if outcomes.len() > 0 {
        only_own_device_is_removed(c, outcomes.drop_last());
    }
}

/// A link that is lost is cleaned up after, and then a new connection is made
/// once the interval is over, however the cleaning up goes.
pub proof fn lost_link_is_reconnected(s: SupervisorView, lost: RunOutcome, o: Seq<RunOutcome>)
    requires
        s.stage == RunStage::Watch,
        lost != RunOutcome::Interrupted,
        o.len() == 3,
    ensures
        s.device is None ==> {
            let waiting = run_next(s, lost);
            &&& run_action(waiting) == RunActionView::Wait(s.reconnect_interval)
            &&& run_action(run_next(waiting, o[0])) == RunActionView::Connect
        },
        s.device matches Some(d) ==> {
            let cleaning = run_next(s, lost);
            let removing = run_next(cleaning, o[0]);
            let waiting = run_next(removing, o[1]);
            &&& run_action(cleaning) == RunActionView::Clean(LOSS_CLEANUP_SECS)
            &&& run_action(removing) == RunActionView::RemoveDevice(d)
            &&& run_action(waiting) == RunActionView::Wait(s.reconnect_interval)
            &&& run_action(run_next(waiting, o[2])) == RunActionView::Connect
        },
{
}

/// A connection or a tunnel that cannot be started is tried again once the
/// interval is over.
pub proof fn failed_start_is_retried(s: SupervisorView, failed: RunOutcome, o: RunOutcome)
    requires
        s.stage == RunStage::Connect || s.stage == RunStage::Start,
        failed != RunOutcome::Done,
    ensures
        run_action(run_next(s, failed)) == RunActionView::Wait(s.reconnect_interval),
        run_action(run_next(run_next(s, failed), o)) == RunActionView::Connect,
{
}

/// An interrupt while the link is watched ends the run: at once where there is
/// nothing to clean up, and otherwise after that. Another interrupt meanwhile
/// ends it at once.
pub proof fn interrupt_ends_run(s: SupervisorView, o: RunOutcome, p: RunOutcome)
    requires
        s.stage == RunStage::Watch,
    ensures
        ({
            let next = run_next(s, RunOutcome::Interrupted);
            let later = run_next(next, o);
            match s.device {
                None => run_action(next) == RunActionView::Exit(0),
                Some(d) => {
                    &&& run_action(next) == RunActionView::LastClean(EXIT_CLEANUP_SECS)
                    &&& if o == RunOutcome::Interrupted {
                        run_action(later) == RunActionView::Exit(FORCED_EXIT)
                    } else {
                        &&& run_action(later) == RunActionView::RemoveDevice(d)
                        &&& run_action(run_next(later, p)) == RunActionView::Exit(0)
                    }
                },
            }
        }),
{
}

} // verus!
