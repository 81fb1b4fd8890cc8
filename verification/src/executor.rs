//! Execute only an explicit, allowlisted repair plan.
use vstd::prelude::*;

use crate::commands::{
    answers_uniquely, error_text, outcome_view, CommandError, CommandErrorView, CommandResult, CommandResultView,
    CommandRunner,
};
use crate::models::{RepairPlan, RepairPlanView, SystemReportView};
use crate::recipes::{lemma_wsl_never_installs, repair_plan};
use crate::text::{str_eq, string_views};

verus! {

/// One executed command as it is reported.
#[derive(Debug)]
pub struct CommandResultJson {
    pub argv: Vec<String>,
    pub return_code: i32,
    pub stdout: String,
    pub stderr: String,
}

impl View for CommandResultJson {
    type V = CommandResultView;

    open spec fn view(&self) -> CommandResultView {
        CommandResultView {
            argv: string_views(self.argv@),
            return_code: self.return_code,
            stdout: self.stdout@,
            stderr: self.stderr@,
        }
    }
}

impl From<CommandResult> for CommandResultJson {
    fn from(result: CommandResult) -> (r: Self) {
        Self {
            argv: result.argv,
            return_code: result.return_code,
            stdout: result.stdout,
            stderr: result.stderr,
        }
    }
}

impl vstd::std_specs::convert::FromSpecImpl<CommandResult> for CommandResultJson {
    open spec fn obeys_from_spec() -> bool {
        true
    }

    open spec fn from_spec(result: CommandResult) -> Self {
        CommandResultJson {
            argv: result.argv,
            return_code: result.return_code,
            stdout: result.stdout,
            stderr: result.stderr,
        }
    }
}

pub open spec fn json_views(v: Seq<CommandResultJson>) -> Seq<CommandResultView> {
    v.map_values(|c: CommandResultJson| c@)
}

/// Whether a plan was carried out, why not if it was not, and the commands
/// that ran.
#[derive(Debug)]
pub struct ApplyResult {
    pub applied: bool,
    pub message: String,
    pub commands: Vec<CommandResultJson>,
}

pub struct ApplyResultView {
    pub applied: bool,
    pub message: Seq<char>,
    pub commands: Seq<CommandResultView>,
}

impl View for ApplyResult {
    type V = ApplyResultView;

    open spec fn view(&self) -> ApplyResultView {
        ApplyResultView {
            applied: self.applied,
            message: self.message@,
            commands: json_views(self.commands@),
        }
    }
}

/// What the runner answered for one command.
pub type Outcome = Result<CommandResultView, CommandErrorView>;

/// A command that ran and exited with 0.
pub open spec fn succeeded(o: Outcome) -> bool {
    o matches Ok(c) && c.return_code == 0
}

pub open spec fn result_of(o: Outcome) -> CommandResultView {
    match o {
        Ok(c) => c,
        Err(_) => arbitrary(),
    }
}

pub open spec fn results_of(os: Seq<Outcome>) -> Seq<CommandResultView> {
    os.map_values(|o: Outcome| result_of(o))
}

/// Carry on through the answers for the commands of a plan, after the
/// commands in `done` have succeeded: stop at the first one that could not
/// run or exited with another code than 0.
pub open spec fn run_outcomes(outs: Seq<Outcome>, done: Seq<CommandResultView>) -> ApplyResultView
    decreases outs.len(),
{
    if outs.len() == 0 {
        ApplyResultView {
            applied: true,
            message: "All approved commands completed."@,
            commands: done,
        }
    } else {
        match outs[0] {
            Err(e) => ApplyResultView { applied: false, message: error_text(e), commands: done },
            Ok(c) => if c.return_code != 0 {
                ApplyResultView {
                    applied: false,
                    message: "A proposed command failed."@,
                    commands: done.push(c),
                }
            } else {
                run_outcomes(outs.drop_first(), done.push(c))
            },
        }
    }
}

/// The result of applying `plan` with `confirmation`, when the runner
/// answers `outs` for its commands in order (answers past the first
/// failure are never asked for).
pub open spec fn apply_outcome(
    plan: RepairPlanView,
    confirmation: Seq<char>,
    outs: Seq<Outcome>,
) -> ApplyResultView {
    if confirmation != "YES"@ {
        ApplyResultView {
            applied: false,
            message: "Confirmation was not exactly YES."@,
            commands: seq![],
        }
    } else if plan.status != "READY"@ || plan.commands.len() == 0 {
        ApplyResultView { applied: false, message: plan.message, commands: seq![] }
    } else {
        run_outcomes(outs, seq![])
    }
}

/// Where applying a plan stands after one more answer of the runner.
pub enum Progress {
    Continue(Vec<CommandResultJson>),
    Finished(ApplyResult),
}

/// Take the runner's answer for the next command, after the commands in
/// `done` have succeeded.
pub fn record_outcome(done: Vec<CommandResultJson>, outcome: Result<CommandResult, CommandError>) -> (p: Progress)
    ensures
        match p {
            Progress::Continue(v) => succeeded(outcome_view(outcome)) && json_views(v@)
                == json_views(done@).push(result_of(outcome_view(outcome))),
            Progress::Finished(a) => !succeeded(outcome_view(outcome)) && a@ == run_outcomes(
                seq![outcome_view(outcome)],
                json_views(done@),
            ),
        },
{
    let mut done = done;
    let ghost before = json_views(done@);
    let ghost o = outcome_view(outcome);
    match outcome {
        Ok(result) => {
            let failed = result.return_code != 0;
            let ghost c = result@;
            let j = CommandResultJson::from(result);
            done.push(j);
            assert(json_views(done@) =~= before.push(c));
            if failed {
                Progress::Finished(
                    ApplyResult {
                        applied: false,
                        message: String::from_str("A proposed command failed."),
                        commands: done,
                    },
                )
            } else {
                assert(seq![o].drop_first() =~= Seq::<Outcome>::empty());
                Progress::Continue(done)
            }
        },
        Err(error) => {
            let message = error.to_string();
            Progress::Finished(ApplyResult { applied: false, message, commands: done })
        },
    }
}

/// Running through answers that all succeeded only records them.
pub proof fn lemma_run_prefix(pre: Seq<Outcome>, rest: Seq<Outcome>, done: Seq<CommandResultView>)
    requires
        forall|k: int| 0 <= k < pre.len() ==> succeeded(#[trigger] pre[k]),
    ensures
        run_outcomes(pre + rest, done) == run_outcomes(rest, done + results_of(pre)),
    decreases pre.len(),
{
    if pre.len() == 0 {
        assert(pre + rest =~= rest);
        assert(done + results_of(pre) =~= done);
    } else {
        let c = result_of(pre[0]);
        assert(succeeded(pre[0]));
        assert((pre + rest)[0] == pre[0]);
        assert((pre + rest).drop_first() =~= pre.drop_first() + rest);
        assert forall|k: int| 0 <= k < pre.drop_first().len() implies succeeded(
            #[trigger] pre.drop_first()[k],
        ) by {
            assert(pre.drop_first()[k] == pre[k + 1]);
        }
        lemma_run_prefix(pre.drop_first(), rest, done.push(c));
        assert(done.push(c) + results_of(pre.drop_first()) =~= done + results_of(pre));
    }
}

/// How many answers a run reads: up to and including the first failure.
pub open spec fn consumed(outs: Seq<Outcome>) -> nat
    decreases outs.len(),
{
    if outs.len() == 0 {
        0
    } else if succeeded(outs[0]) {
        1 + consumed(outs.drop_first())
    } else {
        1
    }
}

/// How many commands of `plan`, from the first on, the runner is asked to
/// run when it answers `outs`.
pub open spec fn asked(plan: RepairPlanView, confirmation: Seq<char>, outs: Seq<Outcome>) -> nat {
    if confirmation != "YES"@ || plan.status != "READY"@ || plan.commands.len() == 0 {
        0
    } else {
        consumed(outs)
    }
}

/// The time limit for each command of a plan, in seconds.
pub open spec fn command_timeout_secs() -> u64 {
    900
}

/// Where applying a plan stands between two commands: the index of the
/// command to run next and the results of those that succeeded before it.
pub struct ApplyState {
    pub next: usize,
    pub done: Vec<CommandResultJson>,
}

/// What applying a plan does next: ask the runner for the command at
/// `index` of the plan with a limit of `timeout_secs`, or stop.
pub enum ApplyStep {
    Ask { index: usize, timeout_secs: u64, state: ApplyState },
    Finished(ApplyResult),
}

/// The first step of applying `plan`: stop at once unless the word is
/// exactly `YES` and the plan is `READY` with commands; else ask for the
/// first command.
pub fn start_apply(plan: &RepairPlan, confirmation: &str) -> (s: ApplyStep)
    ensures
        match s {
            ApplyStep::Finished(r) => asked(plan@, confirmation@, seq![]) == 0 && (
            confirmation@ != "YES"@ || plan@.status != "READY"@ || plan@.commands.len() == 0)
                && r@ == apply_outcome(plan@, confirmation@, seq![]),
            ApplyStep::Ask { index, timeout_secs, state } => confirmation@ == "YES"@
                && plan@.status == "READY"@ && plan@.commands.len() > 0 && index == 0
                && state.next == 0 && state.done@.len() == 0 && timeout_secs
                == command_timeout_secs(),
        },
{
    if !str_eq(confirmation, "YES") {
        let r = ApplyResult {
            applied: false,
            message: String::from_str("Confirmation was not exactly YES."),
            commands: Vec::new(),
        };
        assert(r@.commands =~= Seq::<CommandResultView>::empty());
        return ApplyStep::Finished(r);
    }
    if !str_eq(plan.status.as_str(), "READY") || plan.commands.len() == 0 {
        let r = ApplyResult { applied: false, message: plan.message.clone(), commands: Vec::new() };
        assert(r@.commands =~= Seq::<CommandResultView>::empty());
        return ApplyStep::Finished(r);
    }
    ApplyStep::Ask { index: 0, timeout_secs: 900, state: ApplyState { next: 0, done: Vec::new() } }
}

/// The step after the runner answered for the command at `state.next`:
/// stop at a failure or after the last command; else ask for the following
/// command.
pub fn continue_apply(
    plan: &RepairPlan,
    state: ApplyState,
    outcome: Result<CommandResult, CommandError>,
) -> (s: ApplyStep)
    requires
        state.next < plan@.commands.len(),
    ensures
        match s {
            ApplyStep::Finished(r) => (!succeeded(outcome_view(outcome)) || state.next + 1
                == plan@.commands.len()) && r@ == run_outcomes(
                seq![outcome_view(outcome)],
                json_views(state.done@),
            ),
            ApplyStep::Ask { index, timeout_secs, state: after } => succeeded(
                outcome_view(outcome),
            ) && state.next + 1 < plan@.commands.len() && index == state.next + 1 && after.next
                == index && json_views(after.done@) == json_views(state.done@).push(
                result_of(outcome_view(outcome)),
            ) && timeout_secs == command_timeout_secs(),
        },
{
    let ApplyState { next, done } = state;
    let ghost o = outcome_view(outcome);
    let ghost before = json_views(done@);
    assert(plan@.commands.len() == plan.commands@.len());
    let n = plan.commands.len();
    assert(next < n);
    match record_outcome(done, outcome) {
        Progress::Continue(v) => {
            if next + 1 < n {
                ApplyStep::Ask {
                    index: next + 1,
                    timeout_secs: 900,
                    state: ApplyState { next: next + 1, done: v },
                }
            } else {
                let r = ApplyResult {
                    applied: true,
                    message: String::from_str("All approved commands completed."),
                    commands: v,
                };
                assert(seq![o].drop_first() =~= Seq::<Outcome>::empty());
                assert(seq![o][0] == o);
                assert(json_views(r.commands@) == before.push(result_of(o)));
                let ghost after = before.push(result_of(o));
                assert(run_outcomes(Seq::<Outcome>::empty(), after).commands == after);
                assert(r@ == run_outcomes(seq![o], before));
                ApplyStep::Finished(r)
            }
        },
        Progress::Finished(a) => ApplyStep::Finished(a),
    }
}

/// Answers that all succeeded are all read, and the reading goes on after
/// them.
proof fn lemma_consumed_prefix(pre: Seq<Outcome>, rest: Seq<Outcome>)
    requires
        forall|k: int| 0 <= k < pre.len() ==> succeeded(#[trigger] pre[k]),
    ensures
        consumed(pre + rest) == pre.len() + consumed(rest),
    decreases pre.len(),
{
    if pre.len() > 0 {
        assert((pre + rest)[0] == pre[0]);
        assert((pre + rest).drop_first() =~= pre.drop_first() + rest);
        assert forall|k: int| 0 <= k < pre.drop_first().len() implies succeeded(
            #[trigger] pre.drop_first()[k],
        ) by {
            assert(pre.drop_first()[k] == pre[k + 1]);
        }
        lemma_consumed_prefix(pre.drop_first(), rest);
    } else {
        assert(pre + rest =~= rest);
    }
}

/// The runner may run each command of the plan.
pub open spec fn permits_plan<R: CommandRunner>(runner: &R, plan: RepairPlanView) -> bool {
    forall|k: int| 0 <= k < plan.commands.len() ==> runner.may_run(#[trigger] plan.commands[k].argv)
}

/// Apply a plan only when the caller supplied the exact confirmation word:
/// the runner is asked for the plan's commands in order, each with its own
/// argument vector, until one fails, and its answers decide the result.
pub fn apply_plan<R: CommandRunner>(plan: &RepairPlan, confirmation: &str, runner: &R) -> (r:
    ApplyResult)
    requires
        confirmation@ == "YES"@ && plan@.status == "READY"@ ==> permits_plan(runner, plan@),
    ensures
        exists|outs: Seq<Outcome>|
            {
                &&& outs.len() == plan@.commands.len()
                &&& r@ == #[trigger] apply_outcome(plan@, confirmation@, outs)
                &&& forall|k: int|
                    0 <= k < asked(plan@, confirmation@, outs) ==> runner.answers(
                        plan@.commands[k].argv,
                        #[trigger] outs[k],
                    )
            },
{
    let n = plan.commands.len();
    let (mut index, mut timeout_secs, mut state) = match start_apply(plan, confirmation) {
        ApplyStep::Finished(r) => {
            proof {
                let outs = Seq::new(plan@.commands.len(), |k: int| Err(CommandErrorView::Empty));
                assert(r@ == apply_outcome(plan@, confirmation@, outs));
                assert(asked(plan@, confirmation@, outs) == 0);
            }
            return r;
        },
        ApplyStep::Ask { index, timeout_secs, state } => (index, timeout_secs, state),
    };
    let ghost mut seen: Seq<Outcome> = seq![];
    assert(json_views(state.done@) =~= results_of(seen));
    loop
        invariant
            n == plan@.commands.len(),
            n == plan.commands@.len(),
            confirmation@ == "YES"@,
            plan@.status == "READY"@,
            permits_plan(runner, plan@),
            n > 0,
            index == state.next,
            state.next < n,
            seen.len() == state.next,
            timeout_secs == command_timeout_secs(),
            forall|k: int| 0 <= k < seen.len() ==> succeeded(#[trigger] seen[k]),
            forall|k: int|
                0 <= k < seen.len() ==> runner.answers(plan@.commands[k].argv, #[trigger] seen[k]),
            json_views(state.done@) == results_of(seen),
        decreases n - state.next,
    {
        let ghost i = index as int;
        assert(plan@.commands[i].argv == string_views(plan.commands@[i].argv@));
        assert(runner.may_run(plan@.commands[i].argv));
        let outcome = runner.run(
            plan.commands[index].argv.as_slice(),
            std::time::Duration::from_secs(timeout_secs),
        );
        let ghost o = outcome_view(outcome);
        match continue_apply(plan, state, outcome) {
            ApplyStep::Finished(a) => {
                proof {
                    let filler = Seq::new(
                        (n - i - 1) as nat,
                        |k: int| Err::<CommandResultView, CommandErrorView>(CommandErrorView::Empty),
                    );
                    let rest = seq![o] + filler;
                    let outs = seen + rest;
                    lemma_run_prefix(seen, rest, seq![]);
                    lemma_consumed_prefix(seen, rest);
                    assert(Seq::<CommandResultView>::empty() + results_of(seen) =~= results_of(
                        seen,
                    ));
                    assert(rest[0] == o);
                    assert(rest.drop_first() =~= filler);
                    if succeeded(o) {
                        assert(filler.len() == 0);
                        assert(rest =~= seq![o]);
                        assert(rest.drop_first() =~= Seq::<Outcome>::empty());
                        assert(consumed(Seq::<Outcome>::empty()) == 0);
                    }
                    assert(consumed(rest) == 1);
                    assert(outs.len() == n);
                    assert(a@ == apply_outcome(plan@, confirmation@, outs));
                    assert forall|k: int|
                        0 <= k < asked(plan@, confirmation@, outs) implies runner.answers(
                        plan@.commands[k].argv,
                        #[trigger] outs[k],
                    ) by {
                        if k < seen.len() {
                            assert(outs[k] == seen[k]);
                        } else {
                            assert(outs[k] == o);
                        }
                    }
                }
                return a;
            },
            ApplyStep::Ask { index: next_index, timeout_secs: next_timeout, state: next_state } => {
                proof {
                    let prev = seen;
                    seen = seen.push(o);
                    assert(results_of(seen) =~= results_of(prev).push(result_of(o)));
                    assert forall|k: int| 0 <= k < seen.len() implies succeeded(
                        #[trigger] seen[k],
                    ) by {
                        if k < prev.len() {
                            assert(seen[k] == prev[k]);
                        }
                    }
                    assert forall|k: int| 0 <= k < seen.len() implies runner.answers(
                        plan@.commands[k].argv,
                        #[trigger] seen[k],
                    ) by {
                        if k < prev.len() {
                            assert(seen[k] == prev[k]);
                        }
                    }
                }
                index = next_index;
                timeout_secs = next_timeout;
                state = next_state;
            },
        }
    }
}

/// Running through answers records at most one result per answer.
proof fn lemma_run_length(outs: Seq<Outcome>, done: Seq<CommandResultView>)
    ensures
        done.len() <= run_outcomes(outs, done).commands.len() <= done.len() + outs.len(),
    decreases outs.len(),
{
    if outs.len() > 0 {
        if let Ok(c) = outs[0] {
            if c.return_code == 0 {
                lemma_run_length(outs.drop_first(), done.push(c));
            }
        }
    }
}

/// A run that completes has recorded a success for every answer.
proof fn lemma_run_applied(outs: Seq<Outcome>, done: Seq<CommandResultView>)
    requires
        run_outcomes(outs, done).applied,
    ensures
        run_outcomes(outs, done).commands == done + results_of(outs),
        run_outcomes(outs, done).message == "All approved commands completed."@,
        forall|k: int| 0 <= k < outs.len() ==> succeeded(#[trigger] outs[k]),
    decreases outs.len(),
{
    if outs.len() == 0 {
        assert(done + results_of(outs) =~= done);
    } else {
        let c = result_of(outs[0]);
        lemma_run_applied(outs.drop_first(), done.push(c));
        assert(done.push(c) + results_of(outs.drop_first()) =~= done + results_of(outs));
        assert forall|k: int| 0 <= k < outs.len() implies succeeded(#[trigger] outs[k]) by {
            if k > 0 {
                assert(outs[k] == outs.drop_first()[k - 1]);
            }
        }
    }
}

/// Without the exact word `YES` nothing is applied, the runner is asked
/// for no command, and none is recorded.
pub proof fn lemma_confirmation_required(
    plan: RepairPlanView,
    confirmation: Seq<char>,
    outs: Seq<Outcome>,
)
    requires
        confirmation != "YES"@,
    ensures
        !apply_outcome(plan, confirmation, outs).applied,
        asked(plan, confirmation, outs) == 0,
        apply_outcome(plan, confirmation, outs).commands.len() == 0,
{
}

/// A plan that is not `READY`, or has no commands, is refused with its own
/// message and the runner is asked for nothing.
pub proof fn lemma_unready_plan_runs_nothing(
    plan: RepairPlanView,
    confirmation: Seq<char>,
    outs: Seq<Outcome>,
)
    requires
        confirmation == "YES"@,
        plan.status != "READY"@ || plan.commands.len() == 0,
    ensures
        !apply_outcome(plan, confirmation, outs).applied,
        apply_outcome(plan, confirmation, outs).message == plan.message,
        asked(plan, confirmation, outs) == 0,
        apply_outcome(plan, confirmation, outs).commands.len() == 0,
{
}

/// The runner is asked for the plan's commands up to and including the
/// first one that fails, and for no later one; every command before it
/// succeeded and was recorded.
pub proof fn lemma_stops_at_first_failure(
    plan: RepairPlanView,
    confirmation: Seq<char>,
    outs: Seq<Outcome>,
    j: int,
)
    requires
        confirmation == "YES"@,
        plan.status == "READY"@,
        outs.len() == plan.commands.len(),
        0 <= j < outs.len(),
        !succeeded(outs[j]),
        forall|k: int| 0 <= k < j ==> succeeded(#[trigger] outs[k]),
    ensures
        asked(plan, confirmation, outs) == j + 1,
        !apply_outcome(plan, confirmation, outs).applied,
        apply_outcome(plan, confirmation, outs).commands.len() == (if outs[j] is Ok {
            j + 1
        } else {
            j
        }),
{
    let pre = outs.take(j);
    let rest = outs.skip(j);
    assert(outs =~= pre + rest);
    assert forall|k: int| 0 <= k < pre.len() implies succeeded(#[trigger] pre[k]) by {
        assert(pre[k] == outs[k]);
    }
    lemma_consumed_prefix(pre, rest);
    lemma_run_prefix(pre, rest, seq![]);
    assert(rest[0] == outs[j]);
}

/// The runner is never asked for more commands than the plan holds.
pub proof fn lemma_asked_at_most_the_plan(
    plan: RepairPlanView,
    confirmation: Seq<char>,
    outs: Seq<Outcome>,
)
    ensures
        asked(plan, confirmation, outs) <= outs.len(),
{
    lemma_consumed_bound(outs);
}

proof fn lemma_consumed_bound(outs: Seq<Outcome>)
    ensures
        consumed(outs) <= outs.len(),
    decreases outs.len(),
{
    if outs.len() > 0 {
        lemma_consumed_bound(outs.drop_first());
    }
}

/// Applying never records more commands than the plan holds.
pub proof fn lemma_runs_at_most_the_plan(
    plan: RepairPlanView,
    confirmation: Seq<char>,
    outs: Seq<Outcome>,
)
    requires
        outs.len() == plan.commands.len(),
    ensures
        apply_outcome(plan, confirmation, outs).commands.len() <= plan.commands.len(),
{
    lemma_run_length(outs, seq![]);
}

/// A plan counts as applied only when it was confirmed with `YES`, was
/// `READY` with commands, and every one of its commands ran and exited
/// with 0.
pub proof fn lemma_applied_means_all_succeeded(
    plan: RepairPlanView,
    confirmation: Seq<char>,
    outs: Seq<Outcome>,
)
    requires
        outs.len() == plan.commands.len(),
        apply_outcome(plan, confirmation, outs).applied,
    ensures
        confirmation == "YES"@,
        plan.status == "READY"@,
        plan.commands.len() > 0,
        apply_outcome(plan, confirmation, outs).commands.len() == plan.commands.len(),
        forall|k: int|
            0 <= k < plan.commands.len() ==> (#[trigger] apply_outcome(
                plan,
                confirmation,
                outs,
            ).commands[k]).return_code == 0,
        apply_outcome(plan, confirmation, outs).message == "All approved commands completed."@,
        asked(plan, confirmation, outs) == plan.commands.len(),
{
    lemma_run_applied(outs, seq![]);
    lemma_consumed_prefix(outs, seq![]);
    assert(outs + Seq::<Outcome>::empty() =~= outs);
    let r = apply_outcome(plan, confirmation, outs);
    assert(Seq::<CommandResultView>::empty() + results_of(outs) =~= results_of(outs));
    assert forall|k: int| 0 <= k < plan.commands.len() implies (#[trigger] r.commands[k]).return_code
        == 0 by {
        assert(succeeded(outs[k]));
    }
}

/// On WSL the repair plan never applies, whatever is confirmed and
/// whatever the runner answers.
pub proof fn lemma_wsl_never_applied(
    report: SystemReportView,
    confirmation: Seq<char>,
    outs: Seq<Outcome>,
)
    requires
        report.platform == "wsl"@,
    ensures
        !apply_outcome(repair_plan(report), confirmation, outs).applied,
        asked(repair_plan(report), confirmation, outs) == 0,
        apply_outcome(repair_plan(report), confirmation, outs).commands.len() == 0,
{
    lemma_wsl_never_installs(report);
}


/// Two answer sequences that agree as far as they are read give the same
/// run and are read equally far.
proof fn lemma_runs_agree(a: Seq<Outcome>, b: Seq<Outcome>, done: Seq<CommandResultView>)
    requires
        a.len() == b.len(),
        forall|k: int| 0 <= k < consumed(a) && k < consumed(b) ==> a[k] == b[k],
    ensures
        run_outcomes(a, done) == run_outcomes(b, done),
        consumed(a) == consumed(b),
    decreases a.len(),
{
    if a.len() > 0 {
        assert(a[0] == b[0]);
        if succeeded(a[0]) {
            assert(consumed(a) == 1 + consumed(a.drop_first()));
            assert(consumed(b) == 1 + consumed(b.drop_first()));
            lemma_consumed_bound(a.drop_first());
            lemma_consumed_bound(b.drop_first());
            assert forall|k: int|
                0 <= k < consumed(a.drop_first()) && k < consumed(b.drop_first()) implies a.drop_first()[k]
                == b.drop_first()[k] by {
                assert(0 <= k + 1 < consumed(a) && k + 1 < consumed(b));
                assert(a[k + 1] == b[k + 1]);
                assert(a.drop_first()[k] == a[k + 1]);
                assert(b.drop_first()[k] == b[k + 1]);
            }
            lemma_runs_agree(a.drop_first(), b.drop_first(), done.push(result_of(a[0])));
        }
    }
}

/// Applying the same plan with the same word through a runner that answers
/// each command one way always gives the same result.
pub proof fn lemma_same_answers_same_result<R: CommandRunner>(
    runner: &R,
    plan: RepairPlanView,
    confirmation: Seq<char>,
    a: Seq<Outcome>,
    b: Seq<Outcome>,
)
    requires
        answers_uniquely(runner),
        a.len() == plan.commands.len(),
        b.len() == plan.commands.len(),
        forall|k: int|
            0 <= k < asked(plan, confirmation, a) ==> runner.answers(
                plan.commands[k].argv,
                #[trigger] a[k],
            ),
        forall|k: int|
            0 <= k < asked(plan, confirmation, b) ==> runner.answers(
                plan.commands[k].argv,
                #[trigger] b[k],
            ),
    ensures
        apply_outcome(plan, confirmation, a) == apply_outcome(plan, confirmation, b),
{
    if confirmation == "YES"@ && plan.status == "READY"@ && plan.commands.len() > 0 {
        assert forall|k: int| 0 <= k < consumed(a) && k < consumed(b) implies a[k] == b[k] by {
            assert(runner.answers(plan.commands[k].argv, a[k]));
            assert(runner.answers(plan.commands[k].argv, b[k]));
        }
        lemma_runs_agree(a, b, seq![]);
    }
}


/// A confirmed, `READY` plan with commands is applied when every one of its
/// commands succeeds, and then records all their results in order.
pub proof fn lemma_all_succeeded_means_applied(
    plan: RepairPlanView,
    confirmation: Seq<char>,
    outs: Seq<Outcome>,
)
    requires
        confirmation == "YES"@,
        plan.status == "READY"@,
        plan.commands.len() > 0,
        outs.len() == plan.commands.len(),
        forall|k: int| 0 <= k < outs.len() ==> succeeded(#[trigger] outs[k]),
    ensures
        apply_outcome(plan, confirmation, outs).applied,
        apply_outcome(plan, confirmation, outs).commands == results_of(outs),
        asked(plan, confirmation, outs) == plan.commands.len(),
{
    lemma_run_prefix(outs, seq![], seq![]);
    lemma_consumed_prefix(outs, seq![]);
    assert(outs + Seq::<Outcome>::empty() =~= outs);
    assert(Seq::<CommandResultView>::empty() + results_of(outs) =~= results_of(outs));
}

} // verus!
