//! Running external commands: the executor boundary, the plans of
//! commands that the library hands to it, what a run of a plan may end in,
//! and the helpers that build argument lists and read exit statuses.

use vstd::prelude::*;

use std::sync::Arc;

use crate::error::{is_invalid_input, CoreError};
use crate::text::{chars_of, contains, contains_exec, owned};

verus! {

/// What a finished command reported.
#[derive(Debug, Clone)]
pub struct CommandOutput {
    pub status: i32,
    pub stdout: String,
    pub stderr: String,
}

/// Runs programs on behalf of the library. The library decides what to run
/// and how to read the result; the executor does the running.
///
/// What an executor answers is its own affair: `answers` names the answers
/// it may give, and the library's contracts say what they do with each. An
/// executor that says nothing more may give any answer.
pub trait CommandExecutor {
    /// `result` is an answer this executor may give to running `program`
    /// with `args` and the extra environment `env`.
    open spec fn answers(
        &self,
        program: Seq<char>,
        args: Seq<Seq<char>>,
        env: Seq<(Seq<char>, Seq<char>)>,
        result: Result<CommandOutput, CoreError>,
    ) -> bool {
        true
    }

    /// `result` is an answer this executor may give to writing `contents`
    /// to a fresh temporary file.
    open spec fn writes_temp(&self, contents: Seq<char>, result: Result<String, CoreError>) -> bool {
        true
    }

    /// `result` is an answer this executor may give to removing the file
    /// at `path`.
    open spec fn removes_temp(&self, path: Seq<char>, result: Result<(), CoreError>) -> bool {
        true
    }

    /// Runs `program` with `args` and the extra environment `env`.
    fn run_with_env(
        &self,
        program: &str,
        args: &Vec<String>,
        env: &Vec<(String, String)>,
    ) -> (r: Result<CommandOutput, CoreError>)
        ensures
            self.answers(program@, string_views(args@), pair_views(env@), r),
    ;

    /// Runs `program` with `args` and no extra environment.
    fn run(&self, program: &str, args: &Vec<String>) -> (r: Result<CommandOutput, CoreError>)
        ensures
            self.answers(program@, string_views(args@), seq![], r),
    {
        let env: Vec<(String, String)> = Vec::new();
        assert(pair_views(env@) =~= seq![]);
        self.run_with_env(program, args, &env)
    }

    /// Writes `contents` to a fresh temporary file that outlives the call
    /// and returns its path, for tools that read their input from a file.
    fn write_temp_file(&self, contents: &str) -> (r: Result<String, CoreError>)
        ensures
            self.writes_temp(contents@, r),
    ;

    /// Removes a file that `write_temp_file` made.
    fn remove_temp_file(&self, path: &str) -> (r: Result<(), CoreError>)
        ensures
            self.removes_temp(path@, r),
    ;
}

/// The character sequences of environment pairs.
pub open spec fn pair_views(v: Seq<(String, String)>) -> Seq<(Seq<char>, Seq<char>)> {
    v.map_values(|p: (String, String)| (p.0@, p.1@))
}

/// An executor that runs nothing and reports success with empty output.
#[derive(Debug, Default)]
pub struct DryRunCommandExecutor;

impl CommandExecutor for DryRunCommandExecutor {
    open spec fn answers(
        &self,
        program: Seq<char>,
        args: Seq<Seq<char>>,
        env: Seq<(Seq<char>, Seq<char>)>,
        result: Result<CommandOutput, CoreError>,
    ) -> bool {
        result matches Ok(o) && o.status == 0 && o.stdout@.len() == 0 && o.stderr@.len() == 0
    }

    open spec fn writes_temp(&self, contents: Seq<char>, result: Result<String, CoreError>) -> bool {
        result matches Ok(p) && p@ == "dry-run"@
    }

    open spec fn removes_temp(&self, path: Seq<char>, result: Result<(), CoreError>) -> bool {
        result is Ok
    }

    fn run_with_env(
        &self,
        program: &str,
        args: &Vec<String>,
        env: &Vec<(String, String)>,
    ) -> (r: Result<CommandOutput, CoreError>) {
        Ok(CommandOutput { status: 0, stdout: String::new(), stderr: String::new() })
    }

    fn write_temp_file(&self, contents: &str) -> (r: Result<String, CoreError>) {
        Ok(owned("dry-run"))
    }

    fn remove_temp_file(&self, path: &str) -> (r: Result<(), CoreError>) {
        Ok(())
    }
}

/// The character sequences of a sequence of strings.
pub open spec fn string_views(v: Seq<String>) -> Seq<Seq<char>> {
    v.map_values(|s: String| s@)
}

/// Appends one argument.
pub fn push_arg(args: &mut Vec<String>, s: &str)
    ensures
        string_views(final(args)@) == string_views(old(args)@).push(s@),
{
    let ghost before = string_views(args@);
    args.push(owned(s));
    assert(string_views(args@) =~= before.push(s@));
}

/// Appends one owned argument.
pub fn push_string_arg(args: &mut Vec<String>, s: String)
    ensures
        string_views(final(args)@) == string_views(old(args)@).push(s@),
{
    let ghost before = string_views(args@);
    let ghost sv = s@;
    args.push(s);
    assert(string_views(args@) =~= before.push(sv));
}

/// A copy of a list of strings.
pub fn copy_strings(v: &Vec<String>) -> (r: Vec<String>)
    ensures
        string_views(r@) == string_views(v@),
{
    let mut r: Vec<String> = Vec::new();
    let mut i: usize = 0;
    while i < v.len()
        invariant
            i <= v.len(),
            string_views(r@) == string_views(v@).take(i as int),
        decreases v.len() - i,
    {
        push_arg(&mut r, v[i].as_str());
        i = i + 1;
        assert(string_views(r@) =~= string_views(v@).take(i as int));
    }
    assert(string_views(v@).take(v.len() as int) =~= string_views(v@));
    r
}

/// The outcome of a checked command: success on exit status 0, otherwise
/// `CommandFailed` with the command's standard error.
pub open spec fn status_outcome(out: CommandOutput) -> Result<(), CoreError> {
    if out.status == 0 {
        Ok(())
    } else {
        Err(CoreError::CommandFailed(out.stderr))
    }
}

/// Reads an exit status: `Ok` on 0, `CommandFailed(stderr)` otherwise.
pub fn check_status(out: CommandOutput) -> (r: Result<(), CoreError>)
    ensures
        r == status_outcome(out),
{
    if out.status != 0 {
        return Err(CoreError::CommandFailed(out.stderr));
    }
    Ok(())
}

/// An executor's answer read as a checked command.
pub open spec fn checked_answer(a: Result<CommandOutput, CoreError>) -> Result<(), CoreError> {
    match a {
        Ok(o) => status_outcome(o),
        Err(x) => Err(x),
    }
}

/// How a plan step reads the executor's answer.
#[derive(Debug, Clone, Copy)]
pub enum Reading {
    /// Exit status 0 is success, any other `CommandFailed` with the
    /// command's standard error; the executor's own error is passed on.
    Checked,
    /// Whatever comes back is fine.
    Ignored,
    /// Any exit status is fine; the executor's own error is passed on.
    AnyStatus,
    /// As `Checked`, but a failure whose standard error holds the text
    /// counts as success.
    Tolerating(&'static str),
}

/// What an answer gives under a reading.
pub open spec fn read_answer(reading: Reading, a: Result<CommandOutput, CoreError>) -> Result<(), CoreError> {
    match reading {
        Reading::Checked => checked_answer(a),
        Reading::Ignored => Ok(()),
        Reading::AnyStatus => match a {
            Ok(_) => Ok(()),
            Err(x) => Err(x),
        },
        Reading::Tolerating(t) => match a {
            Ok(o) => if o.status != 0 && !contains(o.stderr@, t@) {
                Err(CoreError::CommandFailed(o.stderr))
            } else {
                Ok(())
            },
            Err(x) => Err(x),
        },
    }
}

/// Reads an answer as `reading` says.
pub fn read_step(reading: Reading, a: Result<CommandOutput, CoreError>) -> (r: Result<(), CoreError>)
    ensures
        r == read_answer(reading, a),
{
    match reading {
        Reading::Checked => match a {
            Ok(o) => check_status(o),
            Err(x) => Err(x),
        },
        Reading::Ignored => Ok(()),
        Reading::AnyStatus => match a {
            Ok(_) => Ok(()),
            Err(x) => Err(x),
        },
        Reading::Tolerating(t) => match a {
            Ok(o) => {
                let e = chars_of(o.stderr.as_str());
                if o.status != 0 && !contains_exec(&e, t) {
                    Err(CoreError::CommandFailed(o.stderr))
                } else {
                    Ok(())
                }
            },
            Err(x) => Err(x),
        },
    }
}

/// One step of a plan of commands.
#[derive(Debug)]
pub enum PlanStep {
    /// Runs the program with the arguments and reads the answer.
    Run(&'static str, Vec<String>, Reading),
    /// Refuses with `InvalidInput` and the message; nothing more runs.
    Refuse(&'static str),
}

/// A plan step as the contracts see it.
pub enum Step {
    Run(Seq<char>, Seq<Seq<char>>, Reading),
    Refuse(Seq<char>),
}

/// The step that a plan step stands for.
pub open spec fn step_view(p: PlanStep) -> Step {
    match p {
        PlanStep::Run(program, args, reading) => Step::Run(program@, string_views(args@), reading),
        PlanStep::Refuse(m) => Step::Refuse(m@),
    }
}

/// The steps that a plan stands for.
pub open spec fn plan_view(p: Seq<PlanStep>) -> Seq<Step> {
    p.map_values(|s: PlanStep| step_view(s))
}

/// A step that runs a checked command.
pub open spec fn checked_step(program: Seq<char>, args: Seq<Seq<char>>) -> Step {
    Step::Run(program, args, Reading::Checked)
}

/// `r` is a possible outcome of running the command `program args` on `e`
/// and reading the answer as `reading`, where `then` stands for the rest of
/// a run that goes on after a success.
pub open spec fn step_outcome<E: CommandExecutor>(
    e: &E,
    program: Seq<char>,
    args: Seq<Seq<char>>,
    reading: Reading,
    r: Result<(), CoreError>,
    then: bool,
) -> bool {
    exists|a: Result<CommandOutput, CoreError>|
        #[trigger] e.answers(program, args, seq![], a) && match read_answer(reading, a) {
            Err(x) => r == Err::<(), CoreError>(x),
            Ok(_) => then,
        }
}

/// `r` is a possible outcome of running `steps` in order on `e`: each
/// command is handed to the executor as written, its answer read as the
/// step says, and the first failure ends the run with its error.
pub open spec fn runs<E: CommandExecutor>(e: &E, steps: Seq<Step>, r: Result<(), CoreError>) -> bool
    decreases steps.len(),
{
    if steps.len() == 0 {
        r is Ok
    } else {
        match steps[0] {
            Step::Refuse(m) => r matches Err(x) && is_invalid_input(x, m),
            Step::Run(p, args, reading) => step_outcome(e, p, args, reading, r, runs(e, steps.drop_first(), r)),
        }
    }
}

/// A run whose first command got answer `a`: it ends there when the answer
/// reads as a failure, and goes on with the rest otherwise.
pub proof fn lemma_runs_cons<E: CommandExecutor>(
    e: &E,
    steps: Seq<Step>,
    p: Seq<char>,
    args: Seq<Seq<char>>,
    rd: Reading,
    a: Result<CommandOutput, CoreError>,
    r: Result<(), CoreError>,
)
    requires
        steps.len() > 0,
        steps[0] == Step::Run(p, args, rd),
        e.answers(p, args, seq![], a),
        match read_answer(rd, a) {
            Err(x) => r == Err::<(), CoreError>(x),
            Ok(_) => runs(e, steps.drop_first(), r),
        },
    ensures
        runs(e, steps, r),
{
    assert(step_outcome(e, p, args, rd, r, runs(e, steps.drop_first(), r)));
}

/// A successful outcome without a value is `Ok(())`.
pub proof fn lemma_ok_unit(r: Result<(), CoreError>)
    requires
        r is Ok,
    ensures
        r == Ok::<(), CoreError>(()),
{
    match r {
        Ok(u) => {
            assert(u == ());
        },
        Err(_) => {},
    }
}

/// Running `a + b` is running `a`, then `b` if `a` succeeded.
pub proof fn lemma_runs_append<E: CommandExecutor>(
    e: &E,
    a: Seq<Step>,
    b: Seq<Step>,
    ra: Result<(), CoreError>,
    r: Result<(), CoreError>,
)
    requires
        runs(e, a, ra),
        ra is Err ==> r == ra,
        ra is Ok ==> runs(e, b, r),
    ensures
        runs(e, a + b, r),
    decreases a.len(),
{
    if a.len() == 0 {
        assert(a + b =~= b);
    } else {
        let ab = a + b;
        assert(ab[0] == a[0]);
        assert(ab.drop_first() =~= a.drop_first() + b);
        match a[0] {
            Step::Refuse(m) => {},
            Step::Run(p, args, reading) => {
                let w = choose|w: Result<CommandOutput, CoreError>|
                    #[trigger] e.answers(p, args, seq![], w) && match read_answer(reading, w) {
                        Err(x) => ra == Err::<(), CoreError>(x),
                        Ok(_) => runs(e, a.drop_first(), ra),
                    };
                assert(e.answers(p, args, seq![], w));
                match read_answer(reading, w) {
                    Err(x) => {},
                    Ok(_) => {
                        lemma_runs_append(e, a.drop_first(), b, ra, r);
                    },
                }
                assert(e.answers(p, args, seq![], w));
            },
        }
    }
}

/// The dry-run executor completes every run of commands: whatever the
/// steps, unless one of them refuses, the outcome is success.
pub proof fn law_dry_run_succeeds(steps: Seq<Step>, r: Result<(), CoreError>)
    requires
        forall|i: int| 0 <= i < steps.len() ==> !(#[trigger] steps[i] is Refuse),
        runs(&DryRunCommandExecutor, steps, r),
    ensures
        r is Ok,
    decreases steps.len(),
{
    if steps.len() > 0 {
        assert(!(steps[0] is Refuse));
        let rest = steps.drop_first();
        assert forall|i: int| 0 <= i < rest.len() implies !(#[trigger] rest[i] is Refuse) by {
            assert(rest[i] == steps[i + 1]);
        }
        law_dry_run_succeeds(rest, r);
    }
}

/// Runs a plan in order and stops at the first failure.
pub fn run_plan<E: CommandExecutor>(e: &E, plan: &Vec<PlanStep>) -> (r: Result<(), CoreError>)
    ensures
        runs(e, plan_view(plan@), r),
{
    let ghost pv = plan_view(plan@);
    let mut i: usize = 0;
    while i < plan.len()
        invariant
            i <= plan.len(),
            pv == plan_view(plan@),
            runs(e, pv.take(i as int), Ok(())),
        decreases plan.len() - i,
    {
        let ghost rest = pv.skip(i as int);
        assert(pv.take(i as int) + rest =~= pv);
        assert(rest[0] == pv[i as int]);
        assert(pv[i as int] == step_view(plan@[i as int]));
        match &plan[i] {
            PlanStep::Refuse(m) => {
                let r: Result<(), CoreError> = Err(CoreError::InvalidInput(owned(m)));
                proof {
                    lemma_runs_append(e, pv.take(i as int), rest, Ok(()), r);
                }
                return r;
            },
            PlanStep::Run(program, args, reading) => {
                let a = e.run(program, args);
                let ghost ga = a;
                let r = read_step(*reading, a);
                if r.is_err() {
                    proof {
                        assert(e.answers(program@, string_views(args@), seq![], ga));
                        assert(rest.len() > 0);
                        assert(plan@[i as int] == PlanStep::Run(*program, *args, *reading));
                        assert(rest[0] == Step::Run(program@, string_views(args@), *reading));
                        assert(read_answer(*reading, ga) == r);
                        assert(e.answers(program@, string_views(args@), seq![], ga) && match read_answer(*reading, ga) {
                            Err(x) => r == Err::<(), CoreError>(x),
                            Ok(_) => runs(e, rest.drop_first(), r),
                        });
                        lemma_runs_cons(e, rest, program@, string_views(args@), *reading, ga, r);
                        lemma_runs_append(e, pv.take(i as int), rest, Ok(()), r);
                    }
                    return r;
                }
                proof {
                    let one = seq![pv[i as int]];
                    assert(one[0] == pv[i as int]);
                    assert(one.drop_first() =~= Seq::<Step>::empty());
                    assert(runs(e, Seq::<Step>::empty(), Ok(())));
                    assert(one[0] == Step::Run(program@, string_views(args@), *reading));
                    lemma_runs_cons(e, one, program@, string_views(args@), *reading, ga, Ok(()));
                    lemma_runs_append(e, pv.take(i as int), one, Ok(()), Ok(()));
                    assert(pv.take(i as int) + one =~= pv.take(i + 1));
                }
            },
        }
        i = i + 1;
    }
    assert(pv.take(plan.len() as int) =~= pv);
    Ok(())
}

/// The command `program args` was handed to `e`, whatever it answered.
pub open spec fn handed<E: CommandExecutor>(e: &E, program: Seq<char>, args: Seq<Seq<char>>) -> bool {
    exists|a: Result<CommandOutput, CoreError>| #[trigger] e.answers(program, args, seq![], a)
}

/// `r` is a possible outcome of running `program args` on `e` and reading
/// a finished command with `read`; the executor's own error is passed on.
pub open spec fn queried<E: CommandExecutor, T>(
    e: &E,
    program: Seq<char>,
    args: Seq<Seq<char>>,
    read: spec_fn(CommandOutput) -> Result<T, CoreError>,
    r: Result<T, CoreError>,
) -> bool {
    exists|a: Result<CommandOutput, CoreError>|
        #[trigger] e.answers(program, args, seq![], a) && r == match a {
            Err(x) => Err(x),
            Ok(o) => read(o),
        }
}

/// `r` is a possible outcome of writing `contents` to a temporary file on
/// `e` and then running the steps that `then` gives for the file's path.
pub open spec fn runs_with_file<E: CommandExecutor>(
    e: &E,
    contents: Seq<char>,
    then: spec_fn(Seq<char>) -> Seq<Step>,
    r: Result<(), CoreError>,
) -> bool {
    exists|w: Result<String, CoreError>|
        #[trigger] e.writes_temp(contents, w) && match w {
            Err(x) => r == Err::<(), CoreError>(x),
            Ok(path) => runs(e, then(path@), r),
        }
}

/// Runs one command and reads its answer as `reading` says.
pub fn run_step<E: CommandExecutor>(e: &E, program: &'static str, args: Vec<String>, reading: Reading) -> (r:
    Result<(), CoreError>)
    ensures
        runs(e, seq![Step::Run(program@, string_views(args@), reading)], r),
{
    let ghost st = Step::Run(program@, string_views(args@), reading);
    let mut plan: Vec<PlanStep> = Vec::new();
    plan.push(PlanStep::Run(program, args, reading));
    assert(plan_view(plan@) =~= seq![st]);
    run_plan(e, &plan)
}

/// Another handle to the same shared value.
///
/// Trusted: calls `Arc::clone`, which the standard library documents as
/// making another pointer to the same allocation.
#[verifier::external_body]
pub(crate) fn share<T>(a: &Arc<T>) -> (r: Arc<T>)
    ensures
        r == *a,
{
    Arc::clone(a)
}

} // verus!
