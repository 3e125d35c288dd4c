//! The confirmation loop: show the commands, read a decision, then copy,
//! execute in order until one fails, or quit.
//!
//! The loop's decisions live here as a state machine. The caller performs
//! each `Action` (print, clipboard, subprocess) and reports back what came
//! of it.

use crate::decision::{decision_of, lowercase_of, UserDecision};
use crate::sanitize::{join_and, CommandSet};
use vstd::prelude::*;

verus! {

/// How one invocation ended.
#[derive(Debug, Clone, Copy, PartialEq, Eq, Structural)]
pub enum Outcome {
    /// The user chose to quit.
    Quit,
    /// The commands were placed on the clipboard.
    Copied,
    /// The clipboard could not be reached.
    ClipboardUnavailable,
    /// Every command ran and succeeded.
    Completed,
    /// A command failed with this exit code; the rest were not run.
    Failed(i32),
}

/// The process exit code for an outcome.
pub open spec fn outcome_code(o: Outcome) -> i32 {
    match o {
        Outcome::Failed(c) => c,
        Outcome::ClipboardUnavailable => 1,
        _ => 0,
    }
}

/// The exit code reported for a command that did not succeed: its own code,
/// or 1 where it has none (it was ended by a signal).
pub open spec fn failure_code(code: Option<i32>) -> i32 {
    match code {
        Some(c) => c,
        None => 1,
    }
}

impl Outcome {
    /// The process exit code for this outcome: zero unless something failed.
    pub fn exit_code(&self) -> (r: i32)
        ensures
            r == outcome_code(*self),
    {
        match self {
            Outcome::Failed(c) => *c,
            Outcome::ClipboardUnavailable => 1,
            _ => 0,
        }
    }
}

/// Where the loop stands.
#[derive(Debug, Clone, Copy, PartialEq, Eq, Structural)]
pub enum Phase {
    /// Waiting for the user's decision.
    Awaiting,
    /// Waiting to hear whether the clipboard took the text.
    Copying,
    /// The command at this index is running.
    Running(usize),
    /// Finished.
    Done(Outcome),
}

/// What the caller is to do next.
#[derive(Debug, PartialEq, Eq)]
pub enum Action {
    /// Print an invalid-input notice and ask again.
    ShowInvalid,
    /// Place this text on the clipboard, then report with `on_copied`.
    Copy(String),
    /// Run this command line in a shell, then report with `on_exit`.
    Run(String),
    /// Stop, with this outcome.
    Stop(Outcome),
}

pub struct SessionView {
    pub commands: Seq<Seq<char>>,
    pub phase: Phase,
}

/// One run of the confirmation loop over a command set.
pub struct Session {
    commands: CommandSet,
    phase: Phase,
}

impl View for Session {
    type V = SessionView;

    closed spec fn view(&self) -> SessionView {
        SessionView { commands: self.commands@, phase: self.phase }
    }
}

/// The step taken on decision `d` from the awaiting phase.
pub open spec fn decided(pre: SessionView, post: SessionView, d: UserDecision, a: Action) -> bool {
    &&& post.commands == pre.commands
    &&& match d {
        UserDecision::Copy => {
            &&& post.phase == Phase::Copying
            &&& (a matches Action::Copy(s) && s@ == join_and(pre.commands))
        },
        UserDecision::Execute => {
            &&& post.phase == Phase::Running(0)
            &&& (a matches Action::Run(s) && s@ == pre.commands[0])
        },
        UserDecision::Quit => post.phase == Phase::Done(Outcome::Quit) && a == Action::Stop(
            Outcome::Quit,
        ),
        UserDecision::Invalid => post.phase == Phase::Awaiting && a == Action::ShowInvalid,
    }
}

impl Session {
    pub closed spec fn wf(&self) -> bool {
        &&& self.commands.wf()
        &&& self.phase matches Phase::Running(i) ==> i < self.commands@.len()
    }

    /// A loop over `commands`, waiting for the first decision.
    pub fn new(commands: CommandSet) -> (r: Session)
        requires
            commands.wf(),
        ensures
            r.wf(),
            r@.commands == commands@,
            r@.phase == Phase::Awaiting,
    {
        Session { commands, phase: Phase::Awaiting }
    }

    /// The command set the loop works on.
    pub fn commands(&self) -> (r: &CommandSet)
        ensures
            r@ == self@.commands,
            self.wf() ==> r.wf(),
    {
        &self.commands
    }

    /// Where the loop stands.
    pub fn phase(&self) -> (r: Phase)
        ensures
            r == self@.phase,
    {
        self.phase
    }

    /// Acts on decision `d`: copy asks for the joined text to be placed on
    /// the clipboard, execute asks for the first command to run, quit stops
    /// at once, and anything else asks again.
    pub fn decide(&mut self, d: UserDecision) -> (a: Action)
        requires
            old(self).wf(),
            old(self)@.phase == Phase::Awaiting,
        ensures
            final(self).wf(),
            decided(old(self)@, final(self)@, d, a),
    {
        match d {
            UserDecision::Copy => {
                self.phase = Phase::Copying;
                Action::Copy(self.commands.joined())
            },
            UserDecision::Execute => {
                self.phase = Phase::Running(0);
                Action::Run(self.commands.get(0).clone())
            },
            UserDecision::Quit => {
                self.phase = Phase::Done(Outcome::Quit);
                Action::Stop(Outcome::Quit)
            },
            UserDecision::Invalid => Action::ShowInvalid,
        }
    }

    /// Acts on one line of console input.
    pub fn on_input(&mut self, line: &str) -> (a: Action)
        requires
            old(self).wf(),
            old(self)@.phase == Phase::Awaiting,
        ensures
            final(self).wf(),
            decided(old(self)@, final(self)@, decision_of(lowercase_of(line@)), a),
    {
        let d = UserDecision::parse(line);
        self.decide(d)
    }

    /// Takes the clipboard's answer: the loop ends either way.
    pub fn on_copied(&mut self, copied: bool) -> (a: Action)
        requires
            old(self).wf(),
            old(self)@.phase == Phase::Copying,
        ensures
            final(self).wf(),
            final(self)@.commands == old(self)@.commands,
            ({
                let o = if copied {
                    Outcome::Copied
                } else {
                    Outcome::ClipboardUnavailable
                };
                final(self)@.phase == Phase::Done(o) && a == Action::Stop(o)
            }),
    {
        let o = if copied {
            Outcome::Copied
        } else {
            Outcome::ClipboardUnavailable
        };
        self.phase = Phase::Done(o);
        Action::Stop(o)
    }

    /// Takes the exit code of the running command (`None` where a signal
    /// ended it). On success the next command runs, or the loop completes
    /// after the last; on failure the loop stops and runs nothing more.
    pub fn on_exit(&mut self, code: Option<i32>) -> (a: Action)
        requires
            old(self).wf(),
            old(self)@.phase is Running,
        ensures
            final(self).wf(),
            final(self)@.commands == old(self)@.commands,
            ({
                let i = old(self)@.phase->Running_0;
                let n = old(self)@.commands.len();
                if code != Some(0i32) {
                    let o = Outcome::Failed(failure_code(code));
                    final(self)@.phase == Phase::Done(o) && a == Action::Stop(o)
                } else if i + 1 < n {
                    &&& final(self)@.phase == Phase::Running((i + 1) as usize)
                    &&& (a matches Action::Run(s) && s@ == old(self)@.commands[i + 1])
                } else {
                    final(self)@.phase == Phase::Done(Outcome::Completed) && a == Action::Stop(
                        Outcome::Completed,
                    )
                }
            }),
    {
        let i = match self.phase {
            Phase::Running(i) => i,
            _ => 0,
        };
        match code {
            Some(0) => {},
            _ => {
                let c = match code {
                    Some(c) => c,
                    None => 1,
                };
                let o = Outcome::Failed(c);
                self.phase = Phase::Done(o);
                return Action::Stop(o);
            },
        }
        let n = self.commands.len();
        if i < n - 1 {
            self.phase = Phase::Running(i + 1);
            Action::Run(self.commands.get(i + 1).clone())
        } else {
            self.phase = Phase::Done(Outcome::Completed);
            Action::Stop(Outcome::Completed)
        }
    }
}

} // verus!
