use multiversion_engine::rustflags::{begins_with, retpolines_enabled, without_prefix};

#[test]
fn no_flags_no_retpolines() {
    assert!(!retpolines_enabled(""));
    assert!(!retpolines_enabled("-Copt-level=3"));
    assert!(!retpolines_enabled("-Copt-level=3\u{1f}-Cdebuginfo=2"));
}

#[test]
fn target_feature_flag_switches_retpolines_on() {
    assert!(retpolines_enabled("-Ctarget-feature=+retpoline"));
    assert!(retpolines_enabled("target-feature=+retpoline"));
    assert!(retpolines_enabled("-Copt-level=3\u{1f}-Ctarget-feature=+avx2,+retpoline"));
    assert!(retpolines_enabled("-Ctarget-feature=+retpoline-external-thunk"));
    assert!(retpolines_enabled(
        "-Ctarget-feature=+retpoline-indirect-branches,+retpoline-indirect-calls"
    ));
}

#[test]
fn other_features_do_not_count() {
    assert!(!retpolines_enabled("-Ctarget-feature=+avx2,+fma"));
    assert!(!retpolines_enabled("-Ctarget-feature=-retpoline"));
    assert!(!retpolines_enabled("-Ctarget-feature=retpoline"));
    assert!(!retpolines_enabled("-Ctarget-feature= +retpoline"));
}

#[test]
fn the_feature_must_stand_in_a_target_feature_flag() {
    assert!(!retpolines_enabled("+retpoline"));
    assert!(!retpolines_enabled("-C\u{1f}target-feature=+avx2\u{1f}+retpoline"));
    assert!(!retpolines_enabled("--cfg=target-feature=+retpoline"));
    assert!(!retpolines_enabled("-Ctarget-cpu=+retpoline"));
    assert!(retpolines_enabled("-C\u{1f}target-feature=+retpoline"));
}

#[test]
fn prefixes() {
    assert!(begins_with("+retpoline-external-thunk", "+retpoline"));
    assert!(begins_with("abc", ""));
    assert!(begins_with("", ""));
    assert!(!begins_with("", "a"));
    assert!(!begins_with("ab", "abc"));
    assert!(!begins_with("abd", "abc"));
    assert_eq!(without_prefix("target-feature=+a,+b", "target-feature="), Some("+a,+b"));
    assert_eq!(without_prefix("target-feature=", "target-feature="), Some(""));
    assert_eq!(without_prefix("-Ctarget-feature=+a", "target-feature="), None);
    assert_eq!(without_prefix("é=ü", "é="), Some("ü"));
}
