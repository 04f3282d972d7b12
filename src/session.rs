//! The decisions of one run: which command to start, and what to do once it
//! has finished. The caller starts the commands and reports their outcomes.
use vstd::prelude::*;

use crate::args::{
    cutoff_flag, help_flag, lemma_no_cutoff_parsed, parse, separator, tokens, ParsedArgs, ParsedModel,
};
use crate::outcome::{
    failure_exit_code, failure_status, succeeded, ChildOutcome, GENERIC_FAILURE,
};

verus! {

/// The program that answers the history query.
pub const HISTORY_PROGRAM: &'static str = "git";

/// The program that performs the update.
pub const UPDATE_PROGRAM: &'static str = "cargo";

/// What the caller is to do next.
pub ghost enum ActionModel {
    /// Print the usage text and exit with status 0.
    PrintHelp,
    /// Run the history program with these arguments and capture its output.
    QueryHistory { args: Seq<Seq<char>> },
    /// Run the update program with these arguments.
    RunUpdate { args: Seq<Seq<char>> },
    /// Exit with status 0.
    Finish,
    /// Report that the last command failed and exit with this status.
    Fail { code: int },
}

/// What the caller is to do next.
#[derive(Clone, Debug, PartialEq, Eq)]
pub enum Action {
    /// Print the usage text and exit with status 0.
    PrintHelp,
    /// Run [`HISTORY_PROGRAM`] with these arguments and capture its output.
    QueryHistory { args: Vec<String> },
    /// Run [`UPDATE_PROGRAM`] with these arguments.
    RunUpdate { args: Vec<String> },
    /// Exit with status 0.
    Finish,
    /// Report that the last command failed and exit with this status.
    Fail { code: u8 },
}

impl View for Action {
    type V = ActionModel;

    open spec fn view(&self) -> ActionModel {
        match self {
            Action::PrintHelp => ActionModel::PrintHelp,
            Action::QueryHistory { args } => ActionModel::QueryHistory { args: tokens(args@) },
            Action::RunUpdate { args } => ActionModel::RunUpdate { args: tokens(args@) },
            Action::Finish => ActionModel::Finish,
            Action::Fail { code } => ActionModel::Fail { code: *code as int },
        }
    }
}

/// Arguments of the history query: the newest commit since `since` that
/// touched a `Cargo.lock`, at most one, printed as a single `c`.
pub open spec fn history_query_args(since: Seq<char>) -> Seq<Seq<char>> {
    seq![
        "log"@,
        "--since"@,
        since,
        "--max-count=1"@,
        "--format=format:c"@,
        "--"@,
        "Cargo.lock"@,
        "*/Cargo.lock"@,
    ]
}

/// Arguments of the update: the `update` subcommand, then the forwarded ones.
pub open spec fn update_args(forwarded: Seq<Seq<char>>) -> Seq<Seq<char>> {
    seq!["update"@] + forwarded
}

/// The first step after parsing: help, an unconditional update when there is
/// no cutoff, and otherwise the history query.
pub open spec fn first_step(p: ParsedModel) -> ActionModel {
    match p {
        ParsedModel::Help => ActionModel::PrintHelp,
        ParsedModel::Invocation { cutoff, forwarded } => match cutoff {
            None => ActionModel::RunUpdate { args: update_args(forwarded) },
            Some(since) => ActionModel::QueryHistory { args: history_query_args(since) },
        },
    }
}

/// The step after the history query: a failed query fails the run; output
/// means a recent change, so nothing is updated; no output means the update
/// runs.
pub open spec fn step_after_history(
    forwarded: Seq<Seq<char>>,
    o: ChildOutcome,
    output: Seq<u8>,
) -> ActionModel {
    if !succeeded(o) {
        ActionModel::Fail { code: failure_status(o) }
    } else if output.len() > 0 {
        ActionModel::Finish
    } else {
        ActionModel::RunUpdate { args: update_args(forwarded) }
    }
}

/// The step after the update: success, or the failure it reported.
pub open spec fn step_after_update(o: ChildOutcome) -> ActionModel {
    if succeeded(o) {
        ActionModel::Finish
    } else {
        ActionModel::Fail { code: failure_status(o) }
    }
}

/// Builds the arguments of the history query for the cutoff `since`.
pub fn history_query_command(since: &String) -> (r: Vec<String>)
    ensures
        tokens(r@) == history_query_args(since@),
{
    let mut r: Vec<String> = Vec::new();
    r.push(String::from_str("log"));
    r.push(String::from_str("--since"));
    r.push(since.clone());
    r.push(String::from_str("--max-count=1"));
    r.push(String::from_str("--format=format:c"));
    r.push(String::from_str("--"));
    r.push(String::from_str("Cargo.lock"));
    r.push(String::from_str("*/Cargo.lock"));
    assert(tokens(r@) =~= history_query_args(since@));
    r
}

/// Builds the arguments of the update: `update`, then `forwarded` in order.
pub fn update_command(forwarded: &Vec<String>) -> (r: Vec<String>)
    ensures
        tokens(r@) == update_args(tokens(forwarded@)),
{
    let mut r: Vec<String> = Vec::new();
    r.push(String::from_str("update"));
    let n = forwarded.len();
    let mut i: usize = 0;
    while i < n
        invariant
            n == forwarded.len(),
            i <= n,
            tokens(r@) == update_args(tokens(forwarded@).subrange(0, i as int)),
        decreases n - i,
    {
        let ghost prev = tokens(r@);
        r.push(forwarded[i].clone());
        proof {
            assert(tokens(r@) =~= prev + seq![forwarded@[i as int]@]);
            assert(tokens(forwarded@).subrange(0, i + 1) =~= tokens(forwarded@).subrange(
                0,
                i as int,
            ) + seq![forwarded@[i as int]@]);
            assert(tokens(r@) =~= update_args(tokens(forwarded@).subrange(0, i + 1)));
        }
        i = i + 1;
    }
    assert(tokens(forwarded@).subrange(0, n as int) =~= tokens(forwarded@));
    r
}

/// Decides the first step for a parsed command line.
pub fn first_action(p: &ParsedArgs) -> (r: Action)
    ensures
        r@ == first_step(p@),
{
    match p {
        ParsedArgs::Help => Action::PrintHelp,
        ParsedArgs::Invocation { cutoff, forwarded } => match cutoff {
            None => Action::RunUpdate { args: update_command(forwarded) },
            Some(since) => Action::QueryHistory { args: history_query_command(since) },
        },
    }
}

/// Decides the step after the history query finished with `outcome` and
/// printed `output`; `forwarded` are the arguments meant for the update.
pub fn action_after_history(forwarded: &Vec<String>, outcome: ChildOutcome, output: &Vec<u8>) -> (r:
    Action)
    ensures
        r@ == step_after_history(tokens(forwarded@), outcome, output@),
{
    if !outcome.is_success() {
        Action::Fail { code: failure_exit_code(outcome) }
    } else if output.len() > 0 {
        Action::Finish
    } else {
        Action::RunUpdate { args: update_command(forwarded) }
    }
}

/// Decides the step after the update finished with `outcome`.
pub fn action_after_update(outcome: ChildOutcome) -> (r: Action)
    ensures
        r@ == step_after_update(outcome),
{
    if outcome.is_success() {
        Action::Finish
    } else {
        Action::Fail { code: failure_exit_code(outcome) }
    }
}

/// Without `--cutoff`, the update runs at once with the forwarded arguments,
/// whatever the history holds, since no query is made; if it succeeds, so
/// does the run. A `--help` read as an option (one before any `--`) is the one
/// thing that prevents it.
pub proof fn lemma_no_cutoff_always_updates(args: Seq<Seq<char>>)
    requires
        forall|j: int| 0 <= j < args.len() ==> #[trigger] args[j] != cutoff_flag(),
        forall|j: int|
            0 <= j < args.len() && #[trigger] args[j] == help_flag() ==> exists|s: int|
                0 <= s < j && args[s] == separator(),
    ensures
        first_step(parse(args)) == (ActionModel::RunUpdate {
            args: update_args(parse(args)->forwarded),
        }),
        step_after_update(ChildOutcome::Exited(0)) == ActionModel::Finish,
{
    lemma_no_cutoff_parsed(args);
}

/// With a cutoff, the history is queried first. When the query succeeds and
/// reports a change, the run ends with status 0 and the update never runs.
pub proof fn lemma_recent_change_skips_update(args: Seq<Seq<char>>, output: Seq<u8>)
    requires
        parse(args) is Invocation,
        parse(args)->cutoff is Some,
        output.len() > 0,
    ensures
        first_step(parse(args)) == (ActionModel::QueryHistory {
            args: history_query_args(parse(args)->cutoff->0),
        }),
        step_after_history(parse(args)->forwarded, ChildOutcome::Exited(0), output)
            == ActionModel::Finish,
{
}

/// With a cutoff, the history is queried first. When the query succeeds with
/// no output, the update runs with exactly the forwarded arguments after its
/// subcommand.
pub proof fn lemma_no_recent_change_runs_update(args: Seq<Seq<char>>, output: Seq<u8>)
    requires
        parse(args) is Invocation,
        parse(args)->cutoff is Some,
        output.len() == 0,
    ensures
        first_step(parse(args)) == (ActionModel::QueryHistory {
            args: history_query_args(parse(args)->cutoff->0),
        }),
        step_after_history(parse(args)->forwarded, ChildOutcome::Exited(0), output) == (
        ActionModel::RunUpdate { args: update_args(parse(args)->forwarded) }),
        update_args(parse(args)->forwarded).subrange(
            1,
            update_args(parse(args)->forwarded).len() as int,
        ) == parse(args)->forwarded,
{
    let f = parse(args)->forwarded;
    assert(update_args(f).subrange(1, update_args(f).len() as int) =~= f);
}

/// A failed update passes its exit code on when the code is a failing exit
/// status (1 to 255); an update ended by a signal gives the generic failure,
/// which is not 0.
pub proof fn lemma_update_failure_propagated(code: i32)
    requires
        1 <= code <= 255,
    ensures
        step_after_update(ChildOutcome::Exited(code)) == (ActionModel::Fail { code: code as int }),
        step_after_update(ChildOutcome::Signaled) == (ActionModel::Fail {
            code: GENERIC_FAILURE as int,
        }),
        GENERIC_FAILURE != 0,
{
}

} // verus!
