use cwdring::args::{req_param, usage};
use cwdring::errors::{missing_argument_error, unrecognized_option_error, ErrorKind};

fn e(s: &str) -> Vec<u8> {
    s.as_bytes().to_vec()
}

#[test]
fn usage_names_the_program_in_both_synopses() {
    let lines = usage(&e("cwdring"));
    assert_eq!(
        lines,
        vec![
            e("Usage:"),
            e("  cwdring [-l|-p]"),
            e("  cwdring [-P|-b] DIRS...+"),
        ]
    );
}

#[test]
fn req_param_hands_the_operand_through() {
    let r: Result<Vec<u8>, _> = req_param(&e("-p"), Some(e("/x")));
    assert_eq!(r.unwrap(), e("/x"));
}

#[test]
fn req_param_reports_the_missing_operand() {
    let r: Result<Vec<u8>, _> = req_param(&e("-p"), None);
    let err = r.unwrap_err();
    assert_eq!(err.kind, ErrorKind::MissingArgument);
    assert_eq!(err.token, e("-p"));
}

#[test]
fn missing_argument_message_is_exact() {
    let err = missing_argument_error(&e("-p"));
    assert_eq!(err.message(), e("option requires an argument: '-p'"));
}

#[test]
fn unrecognized_option_message_is_exact() {
    let err = unrecognized_option_error(&e("-x"));
    assert_eq!(err.message(), e("unrecognized option: '-x'"));
}
