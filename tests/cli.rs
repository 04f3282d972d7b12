use cargo_update_shim::args::{parse_args, ParsedArgs};
use cargo_update_shim::outcome::{failure_exit_code, ChildOutcome, GENERIC_FAILURE};
use cargo_update_shim::session::{
    action_after_history, action_after_update, first_action, history_query_command,
    update_command, Action, HISTORY_PROGRAM, UPDATE_PROGRAM,
};

fn strings(v: &[&str]) -> Vec<String> {
    v.iter().map(|s| s.to_string()).collect()
}

fn invocation(cutoff: Option<&str>, forwarded: &[&str]) -> ParsedArgs {
    ParsedArgs::Invocation {
        cutoff: cutoff.map(|s| s.to_string()),
        forwarded: strings(forwarded),
    }
}

fn history_args(since: &str) -> Vec<String> {
    strings(&[
        "log",
        "--since",
        since,
        "--max-count=1",
        "--format=format:c",
        "--",
        "Cargo.lock",
        "*/Cargo.lock",
    ])
}

#[test]
fn empty_command_line_updates_unconditionally() {
    let parsed = parse_args(&Vec::new());
    assert_eq!(parsed, invocation(None, &[]));
    assert_eq!(first_action(&parsed), Action::RunUpdate { args: strings(&["update"]) });
}

#[test]
fn no_cutoff_runs_update_with_forwarded_arguments() {
    let parsed = parse_args(&strings(&["--verbose", "-p", "serde"]));
    assert_eq!(parsed, invocation(None, &["--verbose", "-p", "serde"]));
    assert_eq!(
        first_action(&parsed),
        Action::RunUpdate { args: strings(&["update", "--verbose", "-p", "serde"]) }
    );
    assert_eq!(action_after_update(ChildOutcome::Exited(0)), Action::Finish);
}

#[test]
fn cutoff_starts_history_query() {
    let parsed = parse_args(&strings(&["--verbose", "--cutoff", "3 months ago"]));
    assert_eq!(parsed, invocation(Some("3 months ago"), &["--verbose"]));
    assert_eq!(
        first_action(&parsed),
        Action::QueryHistory { args: history_args("3 months ago") }
    );
}

#[test]
fn recent_change_skips_update() {
    let forwarded = strings(&["--verbose"]);
    let action = action_after_history(&forwarded, ChildOutcome::Exited(0), &b"c".to_vec());
    assert_eq!(action, Action::Finish);
}

#[test]
fn no_recent_change_runs_update_with_exact_arguments() {
    let forwarded = strings(&["--verbose", "--", "x"]);
    let action = action_after_history(&forwarded, ChildOutcome::Exited(0), &Vec::new());
    assert_eq!(action, Action::RunUpdate { args: strings(&["update", "--verbose", "--", "x"]) });
}

#[test]
fn failed_history_query_fails_run() {
    let forwarded = strings(&["--verbose"]);
    assert_eq!(
        action_after_history(&forwarded, ChildOutcome::Exited(128), &Vec::new()),
        Action::Fail { code: 128 }
    );
    assert_eq!(
        action_after_history(&forwarded, ChildOutcome::Signaled, &b"c".to_vec()),
        Action::Fail { code: GENERIC_FAILURE }
    );
}

#[test]
fn separator_forwards_cutoff_literally() {
    let parsed = parse_args(&strings(&["--cutoff", "X", "--", "--cutoff"]));
    assert_eq!(parsed, invocation(Some("X"), &["--cutoff"]));
    let action = action_after_history(&strings(&["--cutoff"]), ChildOutcome::Exited(0), &Vec::new());
    assert_eq!(action, Action::RunUpdate { args: strings(&["update", "--cutoff"]) });
}

#[test]
fn separator_forwards_help_literally() {
    let parsed = parse_args(&strings(&["--cutoff", "5 days ago", "--", "--help"]));
    assert_eq!(parsed, invocation(Some("5 days ago"), &["--help"]));
}

#[test]
fn help_short_circuits() {
    assert_eq!(parse_args(&strings(&["--help"])), ParsedArgs::Help);
    let parsed = parse_args(&strings(&["--verbose", "--cutoff", "1 week ago", "--help", "--"]));
    assert_eq!(parsed, ParsedArgs::Help);
    assert_eq!(first_action(&parsed), Action::PrintHelp);
}

#[test]
fn help_as_cutoff_value_is_not_help() {
    let parsed = parse_args(&strings(&["--cutoff", "--help"]));
    assert_eq!(parsed, invocation(Some("--help"), &[]));
}

#[test]
fn later_cutoff_wins() {
    let parsed = parse_args(&strings(&["--cutoff", "1 week ago", "a", "--cutoff", "2 days ago"]));
    assert_eq!(parsed, invocation(Some("2 days ago"), &["a"]));
}

#[test]
fn dangling_cutoff_is_ignored() {
    assert_eq!(parse_args(&strings(&["a", "--cutoff"])), invocation(None, &["a"]));
    let parsed = parse_args(&strings(&["--cutoff", "1 week ago", "--cutoff"]));
    assert_eq!(parsed, invocation(Some("1 week ago"), &[]));
}

#[test]
fn unrecognized_tokens_forwarded_in_order() {
    let parsed = parse_args(&strings(&["-w", "--cutoff", "1 week ago", "--x", "-", "y", "--cutoffs"]));
    assert_eq!(parsed, invocation(Some("1 week ago"), &["-w", "--x", "-", "y", "--cutoffs"]));
}

#[test]
fn update_exit_code_propagates() {
    assert_eq!(action_after_update(ChildOutcome::Exited(7)), Action::Fail { code: 7 });
    assert_eq!(action_after_update(ChildOutcome::Exited(255)), Action::Fail { code: 255 });
}

#[test]
fn update_signal_gives_generic_failure() {
    let action = action_after_update(ChildOutcome::Signaled);
    assert_eq!(action, Action::Fail { code: GENERIC_FAILURE });
    assert_ne!(GENERIC_FAILURE, 0);
    assert_ne!(GENERIC_FAILURE, 7);
}

#[test]
fn out_of_range_codes_collapse_to_generic_failure() {
    assert_eq!(failure_exit_code(ChildOutcome::Exited(256)), GENERIC_FAILURE);
    assert_eq!(failure_exit_code(ChildOutcome::Exited(-1)), GENERIC_FAILURE);
    assert_eq!(failure_exit_code(ChildOutcome::Exited(42)), 42);
    assert_eq!(failure_exit_code(ChildOutcome::Signaled), GENERIC_FAILURE);
}

#[test]
fn success_outcome() {
    assert!(ChildOutcome::Exited(0).is_success());
    assert!(!ChildOutcome::Exited(1).is_success());
    assert!(!ChildOutcome::Signaled.is_success());
}

#[test]
fn command_arguments() {
    assert_eq!(HISTORY_PROGRAM, "git");
    assert_eq!(UPDATE_PROGRAM, "cargo");
    assert_eq!(history_query_command(&"1 week ago".to_string()), history_args("1 week ago"));
    assert_eq!(
        update_command(&strings(&["-p", "x"])),
        strings(&["update", "-p", "x"])
    );
}
