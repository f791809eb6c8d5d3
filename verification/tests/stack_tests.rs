use cwdring::stack::{bury, clear, look, look_all, push, push_cwd, put_append, take};

fn e(s: &str) -> Vec<u8> {
    s.as_bytes().to_vec()
}

#[test]
fn look_on_empty_is_none() {
    let stack: Vec<Vec<u8>> = vec![];
    assert_eq!(look(&stack), None);
}

#[test]
fn look_reports_front() {
    let stack = vec![e("/a"), e("/b")];
    assert_eq!(look(&stack), Some(e("/a")));
}

#[test]
fn look_all_reports_everything_in_order() {
    let stack = vec![e("/a"), e("/b"), e("/c")];
    assert_eq!(look_all(&stack), vec![e("/a"), e("/b"), e("/c")]);
}

#[test]
fn take_removes_exactly_what_look_reports() {
    let mut stack = vec![e("/a"), e("/b")];
    let peeked = look(&stack);
    let taken = take(&mut stack);
    assert_eq!(taken, peeked);
    assert_eq!(stack, vec![e("/b")]);
    assert_eq!(look(&stack), Some(e("/b")));
}

#[test]
fn take_on_empty_leaves_stack_unchanged() {
    let mut stack: Vec<Vec<u8>> = vec![];
    assert_eq!(take(&mut stack), None);
    assert!(stack.is_empty());
}

#[test]
fn clear_is_empty() {
    assert!(clear().is_empty());
}

#[test]
fn push_prepends_in_given_order() {
    let stack = vec![e("/a")];
    let new = vec![e("/x"), e("/y")];
    assert_eq!(push(stack, new), vec![e("/x"), e("/y"), e("/a")]);
}

#[test]
fn bury_appends_in_given_order() {
    let stack = vec![e("/a")];
    let new = vec![e("/x"), e("/y")];
    assert_eq!(bury(stack, new), vec![e("/a"), e("/x"), e("/y")]);
}

#[test]
fn put_append_front_and_back() {
    let front = put_append(vec![e("/a")], vec![e("/n")], false);
    assert_eq!(front, vec![e("/n"), e("/a")]);
    let back = put_append(vec![e("/a")], vec![e("/n")], true);
    assert_eq!(back, vec![e("/a"), e("/n")]);
}

#[test]
fn push_cwd_prepends_one_value() {
    let stack = vec![e("/a")];
    assert_eq!(push_cwd(stack, &e("/here")), vec![e("/here"), e("/a")]);
}
