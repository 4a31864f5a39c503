//! The session orchestrator and the control loop's decisions.
//!
//! The orchestrator owns the fixed set of named sessions — the primary
//! interactive shell and the log, status and branch views — and decides, for
//! each event crossing the thread boundary, what the application must do:
//! replay the three view sessions in a fixed order on a coalesced change
//! signal, or terminate once the primary session's child has exited. The
//! decisions are pure; the application performs the spawns and the exit.

use vstd::prelude::*;
use crate::session::{Invocation, MyTerminal, SpawnRequest};

verus! {

/// The log view's command.
pub const GIT_LOG: &'static str =
    "git log --reverse --pretty=format:'%Cred%h%Creset -%C(yellow)%d%Creset %s %Cgreen(%cr) %C(bold blue)<%an>%Creset' --abbrev-commit";

/// The status view's command.
pub const GIT_STATUS: &'static str = "git status --short";

/// The branch view's command.
pub const GIT_BRANCH: &'static str = "git branch";

/// An event handed to the control loop.
#[derive(Clone, Copy)]
pub enum ControlEvent {
    /// A coalesced "repository changed" signal from the debounce engine.
    Changed,
    /// The primary session's child process has exited.
    PrimaryExited,
}

/// What the control loop must do for one event.
pub enum ControlAction {
    /// Perform these spawns, in order, each blocking until established.
    Respawn(Vec<SpawnRequest>),
    /// Terminate the whole application.
    Terminate,
    /// Nothing: the application is already terminating.
    Ignore,
}

/// The fixed set of named sessions, plus whether the application has begun
/// terminating. Owned by the single control thread.
pub struct Orchestrator {
    /// The interactive shell session whose child's exit ends the application.
    pub primary: MyTerminal,
    /// The log view session.
    pub log: MyTerminal,
    /// The status view session.
    pub status: MyTerminal,
    /// The branch view session.
    pub branch: MyTerminal,
    /// Set once the primary session's child has exited; no further signals
    /// are processed afterwards.
    pub terminated: bool,
}

/// A sequence holding an option's content, if any.
pub open spec fn opt_to_seq<A>(x: Option<A>) -> Seq<A> {
    match x {
        Option::None => Seq::empty(),
        Option::Some(a) => seq![a],
    }
}

/// Everything one coalesced signal makes the orchestrator spawn: the three
/// view sessions replayed in the fixed order log, status, branch, skipping
/// the never-spawned ones.
pub open spec fn refresh_requests(o: Orchestrator) -> Seq<SpawnRequest> {
    opt_to_seq(o.log.replay()) + opt_to_seq(o.status.replay()) + opt_to_seq(o.branch.replay())
}

/// A signal is processed — causes spawns — only while the application is
/// not terminating.
pub open spec fn processes(o: Orchestrator, e: ControlEvent) -> bool {
    !o.terminated && e is Changed
}

/// The orchestrator state after one event: the sessions never change under
/// the control loop; only the terminating flag can be set, by the primary
/// child's exit.
pub open spec fn stepped(o: Orchestrator, e: ControlEvent) -> Orchestrator {
    if o.terminated {
        o
    } else {
        match e {
            ControlEvent::Changed => o,
            ControlEvent::PrimaryExited => Orchestrator { terminated: true, ..o },
        }
    }
}

/// The orchestrator state after a whole sequence of events, in order.
pub open spec fn run(o: Orchestrator, es: Seq<ControlEvent>) -> Orchestrator
    decreases es.len(),
{
    if es.len() == 0 {
        o
    } else {
        run(stepped(o, es[0]), es.drop_first())
    }
}

impl Orchestrator {
    /// Start the application's session set in `repo_dir`: spawn the primary
    /// interactive shell, then the log, status and branch views with their
    /// fixed commands, all in the repository directory. Returns the
    /// orchestrator and the four spawns to perform, in that order.
    pub fn start(repo_dir: &str) -> (r: (Orchestrator, Vec<SpawnRequest>))
        ensures
            !r.0.terminated,
            r.0.primary.recorded() matches Some(Invocation::Shell { dir }) && dir@ == repo_dir@,
            r.0.log.recorded() matches Some(Invocation::Command { command, dir })
                && command@ == GIT_LOG@ && dir@ == repo_dir@,
            r.0.status.recorded() matches Some(Invocation::Command { command, dir })
                && command@ == GIT_STATUS@ && dir@ == repo_dir@,
            r.0.branch.recorded() matches Some(Invocation::Command { command, dir })
                && command@ == GIT_BRANCH@ && dir@ == repo_dir@,
            r.1@.len() == 4,
            Some(r.1@[0].invocation) == r.0.primary.recorded() && r.1@[0].watch_exit
                && !r.1@[0].clear_first,
            Some(r.1@[1].invocation) == r.0.log.recorded() && !r.1@[1].watch_exit
                && !r.1@[1].clear_first,
            Some(r.1@[2].invocation) == r.0.status.recorded() && !r.1@[2].watch_exit
                && !r.1@[2].clear_first,
            Some(r.1@[3].invocation) == r.0.branch.recorded() && !r.1@[3].watch_exit
                && !r.1@[3].clear_first,
    {
        let mut primary = MyTerminal::new();
        let mut log = MyTerminal::new();
        let mut status = MyTerminal::new();
        let mut branch = MyTerminal::new();
        let mut spawns: Vec<SpawnRequest> = Vec::new();
        let rq = primary.spawn_shell(repo_dir);
        spawns.push(rq);
        let rq = log.spawn_command(GIT_LOG, repo_dir);
        spawns.push(rq);
        let rq = status.spawn_command(GIT_STATUS, repo_dir);
        spawns.push(rq);
        let rq = branch.spawn_command(GIT_BRANCH, repo_dir);
        spawns.push(rq);
        (Orchestrator { primary, log, status, branch, terminated: false }, spawns)
    }

    /// Decide what one event means. A change signal, while the application
    /// lives, replays the view sessions in the fixed order log, status,
    /// branch; the primary child's exit turns the application towards
    /// termination; afterwards every event is ignored.
    pub fn handle_event(&mut self, e: ControlEvent) -> (r: ControlAction)
        ensures
            *final(self) == stepped(*old(self), e),
            old(self).terminated ==> r is Ignore,
            processes(*old(self), e) ==> (r matches ControlAction::Respawn(v) && v@
                == refresh_requests(*old(self))),
            !old(self).terminated && e is PrimaryExited ==> r is Terminate,
    {
        if self.terminated {
            return ControlAction::Ignore;
        }
        match e {
            ControlEvent::PrimaryExited => {
                self.terminated = true;
                ControlAction::Terminate
            },
            ControlEvent::Changed => {
                let mut v: Vec<SpawnRequest> = Vec::new();
                match self.log.restart() {
                    Option::Some(rq) => v.push(rq),
                    Option::None => {},
                }
                match self.status.restart() {
                    Option::Some(rq) => v.push(rq),
                    Option::None => {},
                }
                match self.branch.restart() {
                    Option::Some(rq) => v.push(rq),
                    Option::None => {},
                }
                proof {
                    assert(v@ =~= refresh_requests(*self));
                }
                ControlAction::Respawn(v)
            },
        }
    }
}

/// Law: one change signal replays every spawned view session with exactly
/// its recorded invocation, in the fixed order log, status, branch, each
/// clearing its output first.
pub proof fn lemma_refresh_order(
    o: Orchestrator,
    inv_log: Invocation,
    inv_status: Invocation,
    inv_branch: Invocation,
)
    requires
        o.log.recorded() == Some(inv_log) && inv_log is Command,
        o.status.recorded() == Some(inv_status) && inv_status is Command,
        o.branch.recorded() == Some(inv_branch) && inv_branch is Command,
    ensures
        refresh_requests(o) == seq![
            SpawnRequest { invocation: inv_log, clear_first: true, watch_exit: false },
            SpawnRequest { invocation: inv_status, clear_first: true, watch_exit: false },
            SpawnRequest { invocation: inv_branch, clear_first: true, watch_exit: false },
        ],
{
    crate::session::lemma_replay_of_record(o.log);
    crate::session::lemma_replay_of_record(o.status);
    crate::session::lemma_replay_of_record(o.branch);
    assert(refresh_requests(o) =~= seq![
        SpawnRequest { invocation: inv_log, clear_first: true, watch_exit: false },
        SpawnRequest { invocation: inv_status, clear_first: true, watch_exit: false },
        SpawnRequest { invocation: inv_branch, clear_first: true, watch_exit: false },
    ]);
}

/// A terminating orchestrator never moves again, whatever events arrive.
pub proof fn lemma_run_terminated(o: Orchestrator, es: Seq<ControlEvent>)
    requires
        o.terminated,
    ensures
        run(o, es) == o,
    decreases es.len(),
{
    if es.len() > 0 {
        assert(stepped(o, es[0]) == o);
        lemma_run_terminated(o, es.drop_first());
    }
}

/// Law: once the primary session's child has exited, no later event is
/// processed — no further signal causes any spawn.
pub proof fn lemma_no_processing_after_exit(o: Orchestrator, es: Seq<ControlEvent>)
    requires
        o.terminated,
    ensures
        forall|i: int|
            0 <= i < es.len() ==> !processes(#[trigger] run(o, es.take(i)), es[i]),
{
    assert forall|i: int|
        0 <= i < es.len() implies !processes(#[trigger] run(o, es.take(i)), es[i]) by {
        lemma_run_terminated(o, es.take(i));
    }
}

/// Law: processing change signals never disturbs any session's record — the
/// spawns a signal produces are the same however many signals came before it.
pub proof fn lemma_refresh_is_stable(o: Orchestrator, es: Seq<ControlEvent>)
    requires
        forall|i: int| 0 <= i < es.len() ==> #[trigger] es[i] is Changed,
    ensures
        run(o, es) == o,
        refresh_requests(run(o, es)) == refresh_requests(o),
    decreases es.len(),
{
    if es.len() > 0 {
        assert(stepped(o, es[0]) == o);
        lemma_refresh_is_stable(o, es.drop_first());
    }
}

} // verus!
