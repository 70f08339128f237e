use hilen_release::inspect::{
    grep_args, inspect_marker, is_release, refuse, release_env, release_mark, InspectError,
};

#[test]
fn the_marker_is_whole_only_at_run_time() {
    assert_eq!(inspect_marker(), "hilen-inspect-server-compiled-in");
    assert_eq!(release_env(), "HILEN_RELEASE");
    assert_eq!(release_mark(), "1");
}

#[test]
fn an_empty_mark_is_no_release() {
    assert!(is_release(Some("1")));
    assert!(is_release(Some(release_mark())));
    assert!(!is_release(Some("")));
    assert!(!is_release(None));
}

#[test]
fn grep_scans_for_the_fixed_marker() {
    assert_eq!(
        grep_args("dist/app.exe"),
        vec!["-r", "-l", "-a", "-F", "--", "hilen-inspect-server-compiled-in", "dist/app.exe"]
    );
}

#[test]
fn the_scan_outcome_decides() {
    assert_eq!(refuse("dist/app", Some(1), b"", b""), Ok(()));
    assert_eq!(
        refuse("dist/app", Some(0), b"dist/app/bin\n", b""),
        Err(InspectError::Carries { files: "dist/app/bin".to_string() })
    );
    assert_eq!(
        refuse("dist/app", Some(2), b"", b"grep: dist/app: No such file\n"),
        Err(InspectError::ScanFailed {
            path: "dist/app".to_string(),
            detail: "grep: dist/app: No such file".to_string()
        })
    );
    assert!(matches!(refuse("x", None, b"", b""), Err(InspectError::ScanFailed { .. })));
}
