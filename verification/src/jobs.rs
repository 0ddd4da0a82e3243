//! The job-control coordinator's decisions, as a verified state machine
//! over process-group identifiers: which signals the shell ignores, when
//! the startup spin may proceed, who owns the terminal while a job runs,
//! and that the shell's group always owns it again once a foreground job
//! is done, whatever the job's outcome. The process that runs the loop
//! performs each returned action with the real operating-system calls.

use vstd::prelude::*;

verus! {

/// The signals job control cares about at the shell's own process.
#[derive(Debug, Clone, Copy, PartialEq, Eq, Structural)]
pub enum ShellSignal {
    /// Interactive interrupt.
    Interrupt,
    /// Interactive quit.
    Quit,
    /// Terminal stop.
    TerminalStop,
    /// Background read from the terminal.
    TerminalInput,
    /// Background write to the terminal.
    TerminalOutput,
    /// A child changed state; never masked, or children cannot be reaped.
    ChildTermination,
}

/// The signals the shell sets to "ignore" at its own process during
/// session initialization; each is restored to its default disposition in
/// a child right after it is spawned. The child-termination signal is
/// deliberately left at its existing disposition.
pub fn signals_to_ignore() -> (v: Vec<ShellSignal>)
    ensures
        v@ =~= seq![
            ShellSignal::Interrupt,
            ShellSignal::Quit,
            ShellSignal::TerminalStop,
            ShellSignal::TerminalInput,
            ShellSignal::TerminalOutput,
        ],
        forall|i: int| 0 <= i < v@.len() ==> v@[i] != ShellSignal::ChildTermination,
{
    let mut v: Vec<ShellSignal> = Vec::new();
    v.push(ShellSignal::Interrupt);
    v.push(ShellSignal::Quit);
    v.push(ShellSignal::TerminalStop);
    v.push(ShellSignal::TerminalInput);
    v.push(ShellSignal::TerminalOutput);
    v
}

/// One decision of the startup spin.
#[derive(Debug, Clone, Copy, PartialEq, Eq, Structural)]
pub enum InitPoll {
    /// Not in the foreground yet: yield the terminal-stop signal to the
    /// shell's own group and look again.
    SignalSelfAndRetry,
    /// The shell's group owns the terminal: initialization may go on.
    Proceed,
}

/// Whether the startup spin may proceed: only once the shell's own process
/// group is the terminal's foreground process group.
pub fn init_poll(shell_pgid: i32, terminal_foreground_pgid: i32) -> (a: InitPoll)
    ensures
        a == InitPoll::Proceed <==> shell_pgid == terminal_foreground_pgid,
{
    if shell_pgid == terminal_foreground_pgid {
        InitPoll::Proceed
    } else {
        InitPoll::SignalSelfAndRetry
    }
}

/// How a dispatched foreground job ended up.
#[derive(Debug, Clone, Copy, PartialEq, Eq, Structural)]
pub enum JobOutcome {
    /// The job exited on its own, with a status.
    Exited(i32),
    /// A signal ended the job.
    Signaled(i32),
    /// The job (or some of its children) stopped.
    Stopped,
}

/// What the coordinator asks the process to do with the controlling
/// terminal's foreground attribute.
#[derive(Debug, Clone, Copy, PartialEq, Eq, Structural)]
pub enum TerminalAction {
    /// Make the given process group the terminal's foreground group.
    GiveTo(i32),
    /// Make the shell's own group the terminal's foreground group.
    ReclaimForShell,
    /// Touch nothing.
    LeaveAlone,
}

/// The coordinator's model of the one piece of global mutable state it
/// manages: the shell's own process group, and which group it believes
/// owns the controlling terminal. Only the coordinator transfers that
/// ownership.
#[derive(Debug, Clone, Copy, PartialEq, Eq, Structural)]
pub struct Coordinator {
    pub shell_pgid: i32,
    pub terminal_owner: i32,
}

/// The model transition for dispatching a command: a foreground job is
/// given the terminal; a background job never receives it and the shell's
/// foreground status is left untouched.
pub open spec fn spec_on_dispatch(c: Coordinator, job_pgid: i32, asynchronous: bool) -> (
    Coordinator,
    TerminalAction,
) {
    if asynchronous {
        (c, TerminalAction::LeaveAlone)
    } else {
        (
            Coordinator { shell_pgid: c.shell_pgid, terminal_owner: job_pgid },
            TerminalAction::GiveTo(job_pgid),
        )
    }
}

/// The model transition after a foreground job finished or stopped:
/// whatever happened, the shell reclaims the terminal.
pub open spec fn spec_on_foreground_done(c: Coordinator, outcome: JobOutcome) -> (
    Coordinator,
    TerminalAction,
) {
    (
        Coordinator { shell_pgid: c.shell_pgid, terminal_owner: c.shell_pgid },
        TerminalAction::ReclaimForShell,
    )
}

impl Coordinator {
    /// A coordinator for a shell that has claimed the terminal: session
    /// initialization ends with the shell's own group in the foreground.
    pub fn new(shell_pgid: i32) -> (c: Coordinator)
        ensures
            c.shell_pgid == shell_pgid,
            c.terminal_owner == shell_pgid,
    {
        Coordinator { shell_pgid, terminal_owner: shell_pgid }
    }

    /// Dispatch a command: the returned action is what the process must
    /// perform on the real terminal. Background jobs never receive
    /// foreground ownership.
    pub fn on_dispatch(&mut self, job_pgid: i32, asynchronous: bool) -> (a: TerminalAction)
        ensures
            (*final(self), a) == spec_on_dispatch(*old(self), job_pgid, asynchronous),
            asynchronous ==> *final(self) == *old(self) && a == TerminalAction::LeaveAlone,
    {
        if asynchronous {
            TerminalAction::LeaveAlone
        } else {
            self.terminal_owner = job_pgid;
            TerminalAction::GiveTo(job_pgid)
        }
    }

    /// A foreground job finished or stopped: reclaim the terminal for the
    /// shell, unconditionally.
    pub fn on_foreground_done(&mut self, outcome: JobOutcome) -> (a: TerminalAction)
        ensures
            (*final(self), a) == spec_on_foreground_done(*old(self), outcome),
            final(self).terminal_owner == old(self).shell_pgid,
            final(self).shell_pgid == old(self).shell_pgid,
            a == TerminalAction::ReclaimForShell,
    {
        self.terminal_owner = self.shell_pgid;
        TerminalAction::ReclaimForShell
    }
}

/// After any foreground command execution, regardless of whether it
/// exited, was signaled, or stopped, the shell's process group is again
/// the terminal's foreground group.
pub proof fn lemma_shell_back_in_foreground(c: Coordinator, outcome: JobOutcome)
    ensures
        spec_on_foreground_done(c, outcome).0.terminal_owner == c.shell_pgid,
        spec_on_foreground_done(c, outcome).0.shell_pgid == c.shell_pgid,
{
}

/// A background job never receives foreground ownership: dispatching an
/// asynchronous command leaves the terminal exactly as it was.
pub proof fn lemma_background_never_owns_terminal(c: Coordinator, job_pgid: i32)
    ensures
        spec_on_dispatch(c, job_pgid, true).0 == c,
        spec_on_dispatch(c, job_pgid, true).1 == TerminalAction::LeaveAlone,
{
}

} // verus!
