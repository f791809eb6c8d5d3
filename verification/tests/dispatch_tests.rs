use cwdring::dispatch::{apply, parse_args, Cmd};
use cwdring::errors::ErrorKind;

fn e(s: &str) -> Vec<u8> {
    s.as_bytes().to_vec()
}

fn toks(ts: &[&str]) -> Vec<Vec<u8>> {
    ts.iter().map(|s| e(s)).collect()
}

#[test]
fn parse_empty_defaults_to_peek_front() {
    let cmds = parse_args(&toks(&[])).unwrap();
    assert_eq!(cmds.len(), 1);
    assert!(matches!(cmds[0], Cmd::Look));
}

#[test]
fn parse_bare_value_pushes_it() {
    let cmds = parse_args(&toks(&["/somewhere"])).unwrap();
    assert_eq!(cmds.len(), 1);
    match &cmds[0] {
        Cmd::Push(vals) => assert_eq!(vals, &vec![e("/somewhere")]),
        _ => panic!("expected a push"),
    }
}

#[test]
fn parse_short_tokens() {
    let cmds = parse_args(&toks(&["-l", "-L", "-t", "-c", "-w"])).unwrap();
    assert_eq!(cmds.len(), 5);
    assert!(matches!(cmds[0], Cmd::Look));
    assert!(matches!(cmds[1], Cmd::LookAll));
    assert!(matches!(cmds[2], Cmd::Take));
    assert!(matches!(cmds[3], Cmd::Clear));
    assert!(matches!(cmds[4], Cmd::PushCwd));
}

#[test]
fn parse_push_one_takes_following_token() {
    let cmds = parse_args(&toks(&["-p", "/x", "-l"])).unwrap();
    assert_eq!(cmds.len(), 2);
    match &cmds[0] {
        Cmd::Push(vals) => assert_eq!(vals, &vec![e("/x")]),
        _ => panic!("expected a push"),
    }
    assert!(matches!(cmds[1], Cmd::Look));
}

#[test]
fn parse_bury_one_takes_following_token() {
    let cmds = parse_args(&toks(&["-b", "/x"])).unwrap();
    assert_eq!(cmds.len(), 1);
    match &cmds[0] {
        Cmd::Bury(vals) => assert_eq!(vals, &vec![e("/x")]),
        _ => panic!("expected a bury"),
    }
}

#[test]
fn parse_push_one_without_operand_is_usage_error() {
    let err = parse_args(&toks(&["-p"])).unwrap_err();
    assert_eq!(err.kind, ErrorKind::MissingArgument);
    assert_eq!(err.token, e("-p"));
}

#[test]
fn parse_bury_one_without_operand_is_usage_error() {
    let err = parse_args(&toks(&["-b"])).unwrap_err();
    assert_eq!(err.kind, ErrorKind::MissingArgument);
    assert_eq!(err.token, e("-b"));
}

#[test]
fn parse_unrecognized_marker_is_usage_error() {
    let err = parse_args(&toks(&["-x"])).unwrap_err();
    assert_eq!(err.kind, ErrorKind::UnrecognizedOption);
    assert_eq!(err.token, e("-x"));
}

#[test]
fn parse_error_wins_over_earlier_commands() {
    let err = parse_args(&toks(&["-l", "-x"])).unwrap_err();
    assert_eq!(err.kind, ErrorKind::UnrecognizedOption);
    assert_eq!(err.token, e("-x"));
}

#[test]
fn parse_lone_dash_is_unrecognized() {
    let err = parse_args(&toks(&["-"])).unwrap_err();
    assert_eq!(err.kind, ErrorKind::UnrecognizedOption);
    assert_eq!(err.token, e("-"));
}

#[test]
fn parse_longer_marker_is_unrecognized() {
    let err = parse_args(&toks(&["-pp"])).unwrap_err();
    assert_eq!(err.kind, ErrorKind::UnrecognizedOption);
    assert_eq!(err.token, e("-pp"));
}

#[test]
fn parse_empty_token_is_a_bare_value() {
    let cmds = parse_args(&toks(&[""])).unwrap();
    assert_eq!(cmds.len(), 1);
    match &cmds[0] {
        Cmd::Push(vals) => assert_eq!(vals, &vec![e("")]),
        _ => panic!("expected a push"),
    }
}

#[test]
fn parse_push_rest_consumes_every_remaining_token() {
    let cmds = parse_args(&toks(&["-P", "/x", "-l"])).unwrap();
    assert_eq!(cmds.len(), 1);
    match &cmds[0] {
        Cmd::Push(vals) => assert_eq!(vals, &vec![e("/x"), e("-l")]),
        _ => panic!("expected a push"),
    }
}

#[test]
fn parse_bury_rest_consumes_every_remaining_token() {
    let cmds = parse_args(&toks(&["-t", "-B", "/x", "/y"])).unwrap();
    assert_eq!(cmds.len(), 2);
    assert!(matches!(cmds[0], Cmd::Take));
    match &cmds[1] {
        Cmd::Bury(vals) => assert_eq!(vals, &vec![e("/x"), e("/y")]),
        _ => panic!("expected a bury"),
    }
}

#[test]
fn parse_help_stops_and_ignores_the_rest() {
    let cmds = parse_args(&toks(&["-h", "-x", "junk"])).unwrap();
    assert_eq!(cmds.len(), 1);
    assert!(matches!(cmds[0], Cmd::Help));
}

#[test]
fn parse_long_help() {
    let cmds = parse_args(&toks(&["--help"])).unwrap();
    assert_eq!(cmds.len(), 1);
    assert!(matches!(cmds[0], Cmd::Help));
}

#[test]
fn apply_look_reports_front_without_persisting() {
    let outcome = apply(vec![e("/a"), e("/b")], &Cmd::Look, &e("/cwd"));
    assert!(outcome.new_stack.is_none());
    assert_eq!(outcome.output, vec![e("/a")]);
    assert!(!outcome.empty_signal);
    assert!(!outcome.help);
}

#[test]
fn apply_look_on_empty_signals_empty() {
    let outcome = apply(vec![], &Cmd::Look, &e("/cwd"));
    assert!(outcome.new_stack.is_none());
    assert!(outcome.output.is_empty());
    assert!(outcome.empty_signal);
}

#[test]
fn apply_take_on_empty_signals_empty_and_keeps_storage() {
    let outcome = apply(vec![], &Cmd::Take, &e("/cwd"));
    assert!(outcome.new_stack.is_none());
    assert!(outcome.output.is_empty());
    assert!(outcome.empty_signal);
}

#[test]
fn apply_clear_persists_empty() {
    let outcome = apply(vec![e("/a")], &Cmd::Clear, &e("/cwd"));
    assert_eq!(outcome.new_stack, Some(vec![]));
    assert!(outcome.output.is_empty());
    assert!(!outcome.empty_signal);
}

#[test]
fn apply_clear_twice_still_empty() {
    let once = apply(vec![e("/a")], &Cmd::Clear, &e("/cwd"));
    let stack = once.new_stack.unwrap();
    let twice = apply(stack, &Cmd::Clear, &e("/cwd"));
    assert_eq!(twice.new_stack, Some(vec![]));
    let peek = apply(vec![], &Cmd::LookAll, &e("/cwd"));
    assert!(peek.output.is_empty());
}

#[test]
fn apply_push_cwd_prepends_the_supplied_directory() {
    let outcome = apply(vec![e("/a")], &Cmd::PushCwd, &e("/here"));
    assert_eq!(outcome.new_stack, Some(vec![e("/here"), e("/a")]));
}

#[test]
fn apply_help_only_asks_for_usage() {
    let outcome = apply(vec![e("/a")], &Cmd::Help, &e("/cwd"));
    assert!(outcome.help);
    assert!(outcome.new_stack.is_none());
    assert!(outcome.output.is_empty());
}

#[test]
fn scenario_push_take_bury_peek_all() {
    let cwd = e("/cwd");
    let storage = vec![e("/a"), e("/b")];

    let pushed = apply(storage, &Cmd::Push(vec![e("/c")]), &cwd);
    let storage = pushed.new_stack.unwrap();
    assert_eq!(storage, vec![e("/c"), e("/a"), e("/b")]);

    let taken = apply(storage, &Cmd::Take, &cwd);
    assert_eq!(taken.output, vec![e("/c")]);
    let storage = taken.new_stack.unwrap();
    assert_eq!(storage, vec![e("/a"), e("/b")]);

    let buried = apply(storage, &Cmd::Bury(vec![e("/z")]), &cwd);
    let storage = buried.new_stack.unwrap();
    assert_eq!(storage, vec![e("/a"), e("/b"), e("/z")]);

    let peeked = apply(storage, &Cmd::LookAll, &cwd);
    assert_eq!(peeked.output, vec![e("/a"), e("/b"), e("/z")]);
}

#[test]
fn push_then_peek_all_yields_values_then_prior() {
    let cwd = e("/cwd");
    let prior = vec![e("/1"), e("/2")];
    let pushed = apply(prior, &Cmd::Push(vec![e("/v1"), e("/v2")]), &cwd);
    let stack = pushed.new_stack.unwrap();
    let peeked = apply(stack, &Cmd::LookAll, &cwd);
    assert_eq!(peeked.output, vec![e("/v1"), e("/v2"), e("/1"), e("/2")]);
}

#[test]
fn bury_then_peek_all_yields_prior_then_values() {
    let cwd = e("/cwd");
    let prior = vec![e("/1"), e("/2")];
    let buried = apply(prior, &Cmd::Bury(vec![e("/v1"), e("/v2")]), &cwd);
    let stack = buried.new_stack.unwrap();
    let peeked = apply(stack, &Cmd::LookAll, &cwd);
    assert_eq!(peeked.output, vec![e("/1"), e("/2"), e("/v1"), e("/v2")]);
}

#[test]
fn take_then_look_reports_second_entry() {
    let cwd = e("/cwd");
    let taken = apply(vec![e("/a"), e("/b")], &Cmd::Take, &cwd);
    let stack = taken.new_stack.unwrap();
    let looked = apply(stack, &Cmd::Look, &cwd);
    assert_eq!(looked.output, vec![e("/b")]);
    assert!(!looked.empty_signal);
}
