use hilen_release::backend::{
    backend_base, backend_name, backend_version, chmod_command, curl_prefix, dist, dist_suffix,
    finalize_command, latest_command, linux_bin, linux_stage, linux_zip, parse_step,
    server_download_command, server_zip, upload_command, zip_command, BackendError, Step,
};
use hilen_release::release::Release;

fn game() -> Release {
    Release {
        name: "raiders".to_string(),
        bin: "raiders".to_string(),
        version: "1.4.0".to_string(),
        bundle_id: "com.raiders".to_string(),
        download_url: None,
        host_deployment: None,
        target_subdir: None,
        self_update: true,
    }
}

#[test]
fn steps_are_parsed() {
    assert_eq!(parse_step("windows"), Ok(Step::Windows));
    assert_eq!(parse_step("mac"), Ok(Step::Mac));
    assert_eq!(parse_step("linux"), Ok(Step::Linux));
    assert_eq!(parse_step("finalize"), Ok(Step::Finalize));
    assert_eq!(parse_step(""), Err(BackendError::UnknownStep { step: String::new() }));
    assert_eq!(parse_step("ios"), Err(BackendError::UnknownStep { step: "ios".to_string() }));
}

#[test]
fn the_backend_names_each_kind() {
    assert_eq!(backend_name("raiders", "v1.4.0", "windows"), Ok("raiders-windows-v1.4.0-installer.exe".to_string()));
    assert_eq!(backend_name("raiders", "v1.4.0", "mac"), Ok("raiders-mac-v1.4.0.dmg".to_string()));
    assert_eq!(backend_name("raiders", "v1.4.0", "linux"), Ok("raiders-linux-v1.4.0.zip".to_string()));
    assert_eq!(backend_name("raiders", "v1.4.0", "server"), Ok("raiders-server-v1.4.0.zip".to_string()));
    assert_eq!(backend_name("raiders", "v1.4.0", "finalize"), Err(BackendError::UnknownKind { kind: "finalize".to_string() }));
}

#[test]
fn uploads_and_finalize_carry_the_token_as_a_variable() {
    let curl = r#"curl --fail --show-error --silent --retry 3 --retry-all-errors -H "Authorization: Bearer $RELEASE_UPLOAD_TOKEN""#;
    assert_eq!(curl_prefix(), curl);
    assert_eq!(
        upload_command("https://b.io", "raiders", "v1.4.0", "dist/x.dmg", "raiders-mac-v1.4.0.dmg"),
        format!("{curl} --upload-file dist/x.dmg https://b.io/artifacts/raiders/v1.4.0/raiders-mac-v1.4.0.dmg")
    );
    assert_eq!(
        finalize_command("https://b.io", "raiders", "v1.4.0"),
        format!("{curl} -X POST https://b.io/artifacts/raiders/v1.4.0/finalize")
    );
}

#[test]
fn dist_paths_and_versions() {
    let r = game();
    assert_eq!(backend_version(&r), "v1.4.0");
    assert_eq!(backend_base("https://b.io//"), "https://b.io");
    assert_eq!(dist(&r, "mac-universal.dmg"), "dist/raiders-1.4.0-mac-universal.dmg");
    assert_eq!(dist_suffix(&Step::Windows), Some("windows-x64-setup.exe"));
    assert_eq!(dist_suffix(&Step::Mac), Some("mac-universal.dmg"));
    assert_eq!(dist_suffix(&Step::Linux), None);
}

#[test]
fn the_linux_zip_holds_the_bare_binary() {
    let r = game();
    assert_eq!(linux_stage(), "target/backend-stage");
    assert_eq!(linux_bin(&r), "target/backend-stage/raiders");
    assert_eq!(linux_zip(&r, "v1.4.0"), "dist/raiders-linux-v1.4.0.zip");
    assert_eq!(chmod_command("target/backend-stage/raiders"), "chmod +x target/backend-stage/raiders");
    assert_eq!(zip_command("dist/z.zip", "b"), "zip -j dist/z.zip b");
}

#[test]
fn the_live_server_zip_is_carried_over() {
    assert_eq!(latest_command("https://b.io", "raiders"), "curl --fail --show-error --silent https://b.io/releases/raiders/latest");
    assert_eq!(server_zip("raiders", "v1.4.0"), "dist/raiders-server-v1.4.0.zip");
    assert_eq!(
        server_download_command("https://b.io", "/files/s.zip", "dist/raiders-server-v1.4.0.zip"),
        "curl --fail --show-error --silent --retry 3 -o dist/raiders-server-v1.4.0.zip https://b.io/files/s.zip"
    );
}
