//! Argument-vector commands: their results, their errors, and the runner
//! that executes them.
use vstd::prelude::*;

use crate::text::string_views;

verus! {

/// What a finished command left behind.
#[derive(Debug, Clone)]
pub struct CommandResult {
    pub argv: Vec<String>,
    pub return_code: i32,
    pub stdout: String,
    pub stderr: String,
}

pub struct CommandResultView {
    pub argv: Seq<Seq<char>>,
    pub return_code: i32,
    pub stdout: Seq<char>,
    pub stderr: Seq<char>,
}

impl View for CommandResult {
    type V = CommandResultView;

    open spec fn view(&self) -> CommandResultView {
        CommandResultView {
            argv: string_views(self.argv@),
            return_code: self.return_code,
            stdout: self.stdout@,
            stderr: self.stderr@,
        }
    }
}

/// Why a command could not be run; the text of the operating-system error
/// is carried along.
#[derive(Debug)]
pub enum CommandError {
    Empty,
    Start(String),
    Output(String),
}

pub enum CommandErrorView {
    Empty,
    Start(Seq<char>),
    Output(Seq<char>),
}

impl View for CommandError {
    type V = CommandErrorView;

    open spec fn view(&self) -> CommandErrorView {
        match self {
            CommandError::Empty => CommandErrorView::Empty,
            CommandError::Start(m) => CommandErrorView::Start(m@),
            CommandError::Output(m) => CommandErrorView::Output(m@),
        }
    }
}

/// The text that describes an error.
pub open spec fn error_text(e: CommandErrorView) -> Seq<char> {
    match e {
        CommandErrorView::Empty => "command is empty"@,
        CommandErrorView::Start(m) => "command failed to start: "@ + m,
        CommandErrorView::Output(m) => "command output failed: "@ + m,
    }
}

impl CommandError {
    /// The text that describes this error.
    pub fn to_string(&self) -> (r: String)
        ensures
            r@ == error_text(self@),
    {
        match self {
            CommandError::Empty => String::from_str("command is empty"),
            CommandError::Start(m) => {
                let mut r = String::from_str("command failed to start: ");
                r.append(m.as_str());
                r
            },
            CommandError::Output(m) => {
                let mut r = String::from_str("command output failed: ");
                r.append(m.as_str());
                r
            },
        }
    }
}

/// The view of what a runner handed back.
pub open spec fn outcome_view(r: Result<CommandResult, CommandError>) -> Result<
    CommandResultView,
    CommandErrorView,
> {
    match r {
        Ok(c) => Ok(c@),
        Err(e) => Err(e@),
    }
}

/// Something that executes an argument vector within a time limit.
///
/// `answers` is the runner's own account of which answer it may give to
/// which argument vector; every answer that `run` hands back is one of them.
/// A runner that gives no account of its own may answer anything. The
/// library's contracts name, through `answers`, the argument vector behind
/// each answer they use.
///
/// `may_run` is the permission to hand an argument vector to the runner:
/// `run` may only be called with a permitted one. A function of the library
/// that runs commands asks its caller, in its `requires`, for permission to
/// run exactly the commands it may hand over, so that no other command can
/// reach the runner. A runner that sets no permissions of its own permits
/// everything.
pub trait CommandRunner {
    closed spec fn answers(&self, argv: Seq<Seq<char>>, out: Result<CommandResultView, CommandErrorView>) -> bool {
        true
    }

    closed spec fn may_run(&self, argv: Seq<Seq<char>>) -> bool {
        true
    }

    fn run(&self, argv: &[String], timeout: std::time::Duration) -> (r: Result<
        CommandResult,
        CommandError,
    >)
        requires
            self.may_run(string_views(argv@)),
        ensures
            self.answers(string_views(argv@), outcome_view(r)),
    ;
}

/// A runner whose account gives at most one answer to each argument
/// vector.
pub open spec fn answers_uniquely<R: CommandRunner>(runner: &R) -> bool {
    forall|argv: Seq<Seq<char>>, a: Result<CommandResultView, CommandErrorView>, b: Result<
        CommandResultView,
        CommandErrorView,
    >|
        #![trigger runner.answers(argv, a), runner.answers(argv, b)]
        runner.answers(argv, a) && runner.answers(argv, b) ==> a == b
}

/// What a runner does after looking at its child process once.
pub enum WaitStep {
    /// The child exited: report this code.
    Exited(i32),
    /// The deadline passed: kill the child's process group and report this
    /// code.
    TimedOut(i32),
    /// Look again after a short sleep.
    KeepWaiting,
}

/// The exit code a runner reports for a finished child: its own code, or
/// 128 when a signal ended it.
pub open spec fn reported_code(code: Option<i32>) -> i32 {
    match code {
        Some(c) => c,
        None => 128,
    }
}

/// Decide, from what the child's status showed (`None` while it runs, else
/// its exit code if it has one) and whether the deadline has passed, what
/// the runner does next.
pub fn wait_step(status: Option<Option<i32>>, past_deadline: bool) -> (s: WaitStep)
    ensures
        match status {
            Some(code) => s == WaitStep::Exited(reported_code(code)),
            None => if past_deadline {
                s == WaitStep::TimedOut(124)
            } else {
                s == WaitStep::KeepWaiting
            },
        },
{
    match status {
        Some(Some(c)) => WaitStep::Exited(c),
        Some(None) => WaitStep::Exited(128),
        None => if past_deadline {
            WaitStep::TimedOut(124)
        } else {
            WaitStep::KeepWaiting
        },
    }
}

/// `Duration::from_secs`: nothing is stated of the duration it builds;
/// the library only hands it on to a runner.
pub assume_specification[ core::time::Duration::from_secs ](secs: u64) -> (d: core::time::Duration);

/// An argument vector can be executed only if it names a program and none
/// of its words is empty.
pub open spec fn runnable(argv: Seq<Seq<char>>) -> bool {
    argv.len() > 0 && forall|i: int| 0 <= i < argv.len() ==> #[trigger] argv[i].len() > 0
}

/// Refuse an argument vector that is empty or holds an empty word.
pub fn validate_argv(argv: &[String]) -> (r: Result<(), CommandError>)
    ensures
        r is Ok <==> runnable(string_views(argv@)),
        r matches Err(e) ==> e@ == CommandErrorView::Empty,
{
    if argv.len() == 0 {
        return Err(CommandError::Empty);
    }
    let mut i: usize = 0;
    while i < argv.len()
        invariant
            i <= argv@.len(),
            forall|k: int| 0 <= k < i ==> #[trigger] argv@[k]@.len() > 0,
        decreases argv@.len() - i,
    {
        if argv[i].as_str().is_empty() {
            assert(string_views(argv@)[i as int].len() == 0);
            return Err(CommandError::Empty);
        }
        i += 1;
    }
    assert forall|k: int| 0 <= k < string_views(argv@).len() implies #[trigger] string_views(
        argv@,
    )[k].len() > 0 by {
        assert(argv@[k]@.len() > 0);
    }
    Ok(())
}

} // verus!
