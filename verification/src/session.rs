//! Command sessions: one named, process-backed, restartable command view.
//!
//! A session records the invocation it was last asked to run — an interactive
//! shell in a working directory, or a fixed command string run through the
//! command interpreter — and can replay that invocation verbatim. The session
//! itself never touches a process or a terminal: each operation returns a
//! [`SpawnRequest`] describing exactly what to spawn, and the surrounding
//! application performs it against its terminal surface.

use vstd::prelude::*;
use vstd::string::StringExecFns;

verus! {

/// An invocation a session was asked to run: the interactive shell, or a
/// fixed command string handed to `shell -c`, each with a working directory.
pub enum Invocation {
    /// The interactive shell, run in `dir`.
    Shell { dir: String },
    /// The command string `command`, run through the interpreter in `dir`.
    Command { command: String, dir: String },
}

/// One spawn for the application to perform, blocking until the child and
/// its terminal attachment are fully established.
pub struct SpawnRequest {
    /// What to run and where.
    pub invocation: Invocation,
    /// Clear the session's visible output before the child runs.
    pub clear_first: bool,
    /// Attach an observer to the child's exit; the application terminates
    /// when such a child exits. Set only for the interactive shell, which
    /// backs the primary session.
    pub watch_exit: bool,
}

/// A session: the terminal-backed command view's record of what it last ran.
pub struct MyTerminal {
    last: Option<Invocation>,
}

/// An exact copy of an invocation, piece by piece, so that the copy is known
/// to equal the original.
fn clone_invocation(inv: &Invocation) -> (r: Invocation)
    ensures
        r == *inv,
{
    match inv {
        Invocation::Shell { dir } => Invocation::Shell { dir: dir.clone() },
        Invocation::Command { command, dir } => Invocation::Command {
            command: command.clone(),
            dir: dir.clone(),
        },
    }
}

impl MyTerminal {
    /// The invocation last recorded for this session, if it was ever spawned.
    pub closed spec fn recorded(self) -> Option<Invocation> {
        self.last
    }

    /// The spawn request a restart of this session produces: the recorded
    /// invocation replayed verbatim — clearing the visible output first for a
    /// command session — or nothing at all for a never-spawned session.
    pub closed spec fn replay(self) -> Option<SpawnRequest> {
        match self.last {
            Option::None => Option::<SpawnRequest>::None,
            Option::Some(inv) => Option::Some(
                SpawnRequest {
                    invocation: inv,
                    clear_first: inv is Command,
                    watch_exit: inv is Shell,
                },
            ),
        }
    }

    /// A fresh, never-spawned session.
    pub fn new() -> (t: MyTerminal)
        ensures
            t.recorded() is None,
    {
        MyTerminal { last: Option::None }
    }

    /// Ask for the interactive shell in `directory`; the session records the
    /// invocation, and the returned spawn carries the exit observer that
    /// terminates the whole application when this child exits.
    pub fn spawn_shell(&mut self, directory: &str) -> (r: SpawnRequest)
        ensures
            final(self).recorded() == Some(r.invocation),
            r.invocation matches Invocation::Shell { dir } && dir@ == directory@,
            !r.clear_first,
            r.watch_exit,
    {
        let inv = Invocation::Shell { dir: directory.to_owned() };
        let copy = clone_invocation(&inv);
        self.last = Option::Some(inv);
        SpawnRequest { invocation: copy, clear_first: false, watch_exit: true }
    }

    /// Ask for `command` to be run through the interpreter in `directory`;
    /// the session records the pair as its last invocation.
    pub fn spawn_command(&mut self, command: &str, directory: &str) -> (r: SpawnRequest)
        ensures
            final(self).recorded() == Some(r.invocation),
            r.invocation matches Invocation::Command { command: c, dir: d } && c@ == command@
                && d@ == directory@,
            !r.clear_first,
            !r.watch_exit,
    {
        let inv = Invocation::Command {
            command: command.to_owned(),
            dir: directory.to_owned(),
        };
        let copy = clone_invocation(&inv);
        self.last = Option::Some(inv);
        SpawnRequest { invocation: copy, clear_first: false, watch_exit: false }
    }

    /// Replay the last-recorded invocation verbatim, clearing the visible
    /// output first for a command session. On a never-spawned session this is
    /// a no-op: nothing is spawned.
    pub fn restart(&self) -> (r: Option<SpawnRequest>)
        ensures
            r == self.replay(),
            self.recorded() is None ==> r is None,
            self.recorded() matches Some(inv) ==> r == Some(
                SpawnRequest {
                    invocation: inv,
                    clear_first: inv is Command,
                    watch_exit: inv is Shell,
                },
            ),
    {
        match &self.last {
            Option::None => Option::None,
            Option::Some(inv) => {
                let watch_exit = match inv {
                    Invocation::Shell { .. } => true,
                    Invocation::Command { .. } => false,
                };
                Option::Some(
                    SpawnRequest {
                        invocation: clone_invocation(inv),
                        clear_first: !watch_exit,
                        watch_exit,
                    },
                )
            },
        }
    }
}

/// What a session replays is exactly its record: nothing for a never-spawned
/// session, otherwise the recorded invocation verbatim, clearing first for a
/// command session and watching the child's exit for the interactive shell.
pub proof fn lemma_replay_of_record(s: MyTerminal)
    ensures
        s.recorded() is None ==> s.replay() is None,
        s.recorded() matches Some(inv) ==> s.replay() == Some(
            SpawnRequest {
                invocation: inv,
                clear_first: inv is Command,
                watch_exit: inv is Shell,
            },
        ),
{
}

/// Law: what a restart spawns is determined by the recorded invocation
/// alone. Two sessions with the same record replay identically, no matter
/// how many restarts preceded or what any other session did — a restart
/// borrows the session immutably, so it cannot disturb any record.
pub proof fn lemma_replay_depends_only_on_record(a: MyTerminal, b: MyTerminal)
    requires
        a.recorded() == b.recorded(),
    ensures
        a.replay() == b.replay(),
{
}

/// Law: a session with recorded invocation `(cmd, dir)` always replays
/// exactly `(cmd, dir)`.
pub proof fn lemma_restart_replays_exactly(s: MyTerminal, cmd: Seq<char>, dir: Seq<char>)
    requires
        s.recorded() matches Some(Invocation::Command { command: c, dir: d }) && c@ == cmd
            && d@ == dir,
    ensures
        s.replay() matches Some(req) && req.invocation matches Invocation::Command {
            command: c,
            dir: d,
        } && c@ == cmd && d@ == dir,
{
}

/// Law: a restart of a never-spawned session spawns nothing.
pub proof fn lemma_restart_never_spawned(s: MyTerminal)
    requires
        s.recorded() is None,
    ensures
        s.replay() is None,
{
}

/// The command interpreter to use: the environment's default shell. The
/// caller reads the environment and hands the value in; there must be one.
pub fn get_shell(env_shell: Option<String>) -> (r: String)
    requires
        env_shell is Some,
    ensures
        Some(r) == env_shell,
{
    match env_shell {
        Option::Some(s) => s,
        Option::None => vstd::pervasive::unreached(),
    }
}

/// The exact line handed to `shell -c` for a command session: the recorded
/// command verbatim, prefixed so the previous output is cleared first when a
/// session restarts in place.
pub fn command_line(command: &str, clear_first: bool) -> (line: String)
    ensures
        clear_first ==> line@ == "clear && "@ + command@,
        !clear_first ==> line@ == command@,
{
    if clear_first {
        let mut line = "clear && ".to_owned();
        line.append(command);
        line
    } else {
        command.to_owned()
    }
}

/// The argument vector for one spawn: `[shell]` for the interactive shell,
/// `[shell, "-c", line]` for a command, where `line` is the command rendered
/// by [`command_line`].
pub fn spawn_argv(shell: &str, req: &SpawnRequest) -> (argv: Vec<String>)
    ensures
        req.invocation matches Invocation::Shell { .. } ==> argv@.len() == 1 && argv@[0]@
            == shell@,
        req.invocation matches Invocation::Command { command, .. } ==> argv@.len() == 3
            && argv@[0]@ == shell@ && argv@[1]@ == "-c"@ && argv@[2]@ == (
        if req.clear_first {
            "clear && "@ + command@
        } else {
            command@
        }),
{
    let mut argv: Vec<String> = Vec::new();
    argv.push(shell.to_owned());
    match &req.invocation {
        Invocation::Shell { .. } => {},
        Invocation::Command { command, .. } => {
            argv.push("-c".to_owned());
            argv.push(command_line(command.as_str(), req.clear_first));
        },
    }
    argv
}

} // verus!
