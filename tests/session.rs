use risp::{count_parens, input_status, InputStatus};

#[test]
fn counts_balanced_parentheses() {
    assert_eq!(count_parens("(+ 1 (* 2 3))"), (2, 2, true));
    assert_eq!(count_parens("abc"), (0, 0, true));
}

#[test]
fn a_second_expression_spoils_the_count() {
    assert_eq!(count_parens("(a) (b)"), (1, 1, false));
    assert_eq!(count_parens("(a))"), (1, 1, false));
}

#[test]
fn complete_input() {
    assert_eq!(input_status("(+ 1 2)"), InputStatus::Complete);
    assert_eq!(input_status("x"), InputStatus::Complete);
    assert_eq!(input_status("+ 1 2"), InputStatus::Complete);
}

#[test]
fn open_group_needs_more() {
    assert_eq!(input_status("(+ 1"), InputStatus::NeedMore);
    assert_eq!(input_status("(+ 1 (* 2\n3)"), InputStatus::NeedMore);
    assert_eq!(input_status(""), InputStatus::NeedMore);
}

#[test]
fn extra_parentheses_are_malformed() {
    assert_eq!(input_status("(+ 1 2))"), InputStatus::Malformed);
    assert_eq!(input_status("(a) (b)"), InputStatus::Malformed);
}
