use c0pl4nd::pty_gate::{enforce, env_arms_requirement, must_fail, require_live_spawn};

#[test]
fn a_failed_spawn_is_a_clean_skip_when_a_pty_is_not_mandatory() {
    assert!(
        !enforce(false, false),
        "a host with no usable shell must skip, not fail — nobody is relying on it"
    );
}

#[test]
fn a_live_pty_runs_the_body_either_way() {
    assert!(enforce(true, true), "pty present + required => run");
    assert!(enforce(true, false), "pty present + optional => run");
}

#[test]
fn only_the_exact_value_1_arms_the_requirement() {
    assert!(env_arms_requirement(Some("1")), "1 arms it");
    assert!(!env_arms_requirement(Some("0")), "0 must not");
    assert!(!env_arms_requirement(Some("true")), "only the literal 1 arms it");
    assert!(!env_arms_requirement(Some("")), "empty must not");
    assert!(!env_arms_requirement(None), "unset must not");
}

#[test]
fn a_required_spawn_that_failed_must_fail() {
    assert!(must_fail(false, true));
    assert!(!must_fail(false, false));
    assert!(!must_fail(true, true));
    assert_eq!(require_live_spawn(true, true), None);
    assert_eq!(require_live_spawn(true, false), Some(false));
    assert_eq!(require_live_spawn(false, true), Some(true));
}
