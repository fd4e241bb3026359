use assist::permission::{
    outcome, pick_option, Outcome, PermissionOption, PermissionOptionKind,
};

fn options() -> Vec<PermissionOption> {
    vec![
        PermissionOption::new("aa", "Always allow", PermissionOptionKind::AllowAlways),
        PermissionOption::new("a1", "Allow once", PermissionOptionKind::AllowOnce),
        PermissionOption::new("r1", "Reject once", PermissionOptionKind::RejectOnce),
        PermissionOption::new("ra", "Always reject", PermissionOptionKind::RejectAlways),
    ]
}

/// A single keypress must not grant standing consent.
#[test]
fn pick_option_prefers_the_once_forms() {
    assert_eq!(&*pick_option(&options(), true).unwrap(), "a1");
    assert_eq!(&*pick_option(&options(), false).unwrap(), "r1");
}

#[test]
fn pick_option_falls_back_to_always_when_that_is_all_there_is() {
    let only_always = vec![
        PermissionOption::new("aa", "Always allow", PermissionOptionKind::AllowAlways),
        PermissionOption::new("ra", "Always reject", PermissionOptionKind::RejectAlways),
    ];
    assert_eq!(&*pick_option(&only_always, true).unwrap(), "aa");
    assert_eq!(&*pick_option(&only_always, false).unwrap(), "ra");
}

#[test]
fn pick_option_reports_no_usable_option() {
    assert!(pick_option(&vec![], true).is_none());
}

#[test]
fn pick_option_passes_over_unknown_kinds_and_takes_the_first_that_fits() {
    let options = vec![
        PermissionOption::new("x", "Later", PermissionOptionKind::Other),
        PermissionOption::new("1", "First", PermissionOptionKind::AllowOnce),
        PermissionOption::new("2", "Second", PermissionOptionKind::AllowOnce),
    ];
    assert_eq!(pick_option(&options, true).unwrap(), "1");
    assert!(pick_option(&options, false).is_none());
}

#[test]
fn an_outcome_selects_the_picked_option_or_cancels() {
    assert!(matches!(outcome(&options(), true), Outcome::Selected(id) if id == "a1"));
    assert!(matches!(outcome(&vec![], true), Outcome::Cancelled));
}
