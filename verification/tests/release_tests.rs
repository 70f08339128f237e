use hilen_release::release::{release_from, yes, Distribution, Package, Release, ReleaseError, Target};

fn sample() -> Release {
    Release {
        name: "kukareker".to_string(),
        bin: "kukareker".to_string(),
        version: "0.2.0".to_string(),
        bundle_id: "com.example.kukareker".to_string(),
        download_url: Some("https://dl.example.com".to_string()),
        host_deployment: None,
        target_subdir: Some("kukareker".to_string()),
        self_update: true,
    }
}

fn target(name: &str, kinds: &[&str]) -> Target {
    Target { name: name.to_string(), kind: kinds.iter().map(|k| k.to_string()).collect() }
}

fn package(name: &str, version: &str, targets: Vec<Target>) -> Package {
    Package { name: name.to_string(), version: version.to_string(), targets }
}

fn table(url: Option<&str>) -> Distribution {
    Distribution {
        download_url: url.map(|u| u.to_string()),
        host_deployment: Some("beekeeper".to_string()),
        target_subdir: Some("apps".to_string()),
        self_update: yes(),
    }
}

#[test]
fn artifact_names_follow_the_dmg_style() {
    assert_eq!(sample().artifact("mac-universal.dmg"), "kukareker-0.2.0-mac-universal.dmg");
}

#[test]
fn getters_give_the_set_fields_and_name_the_missing_one() {
    let r = sample();
    assert_eq!(r.download_url(), Ok("https://dl.example.com"));
    assert_eq!(r.host_deployment(), Err(ReleaseError::MissingHostDeployment));
    assert_eq!(r.target_subdir(), Ok("kukareker"));
    let mut bare = sample();
    bare.download_url = None;
    bare.target_subdir = None;
    assert_eq!(bare.download_url(), Err(ReleaseError::MissingDownloadUrl));
    assert_eq!(bare.target_subdir(), Err(ReleaseError::MissingTargetSubdir));
}

#[test]
fn sign_runs_the_signer_only_with_the_updater() {
    let r = sample();
    assert_eq!(
        r.sign(&["dist/a.exe", "dist/b.exe"]),
        Some("rust build/release/sign.rs dist/a.exe dist/b.exe".to_string())
    );
    let mut no_updater = sample();
    no_updater.self_update = false;
    assert_eq!(no_updater.sign(&["dist/a.exe"]), None);
}

#[test]
fn self_update_defaults_to_yes() {
    assert!(yes());
}

#[test]
fn the_binary_named_like_the_package_is_the_app() {
    let pkgs = vec![
        package("other", "9.9.9", vec![target("other", &["bin"])]),
        package(
            "kukareker",
            "0.2.0",
            vec![
                target("gallery", &["bin"]),
                target("kukareker", &["lib"]),
                target("kukareker", &["bin"]),
            ],
        ),
    ];
    let r = release_from("kukareker", "com.k".to_string(), pkgs, table(Some("https://x.org//")))
        .unwrap();
    assert_eq!(r.name, "kukareker");
    assert_eq!(r.bin, "kukareker");
    assert_eq!(r.version, "0.2.0");
    assert_eq!(r.bundle_id, "com.k");
    assert_eq!(r.download_url.as_deref(), Some("https://x.org"));
    assert_eq!(r.host_deployment.as_deref(), Some("beekeeper"));
    assert_eq!(r.target_subdir.as_deref(), Some("apps"));
    assert!(r.self_update);
}

#[test]
fn a_lone_binary_under_another_name_is_the_app() {
    let pkgs = vec![package("game", "1.0.0", vec![target("game-window", &["bin"]), target("game", &["lib"])])];
    let r = release_from("game", "id".to_string(), pkgs, table(None)).unwrap();
    assert_eq!(r.bin, "game-window");
    assert_eq!(r.download_url, None);
}

#[test]
fn several_binaries_without_the_package_name_are_refused() {
    let pkgs = vec![package("game", "1.0.0", vec![target("a", &["bin"]), target("b", &["example", "bin"])])];
    let e = release_from("game", "id".to_string(), pkgs, table(None)).unwrap_err();
    assert_eq!(
        e,
        ReleaseError::NoSingleBinary {
            package: "game".to_string(),
            bins: vec!["a".to_string(), "b".to_string()]
        }
    );
    let none = vec![package("game", "1.0.0", vec![target("game", &["lib"])])];
    let e = release_from("game", "id".to_string(), none, table(None)).unwrap_err();
    assert_eq!(e, ReleaseError::NoSingleBinary { package: "game".to_string(), bins: vec![] });
}

#[test]
fn a_missing_package_is_named() {
    let pkgs = vec![package("other", "1.0.0", vec![target("other", &["bin"])])];
    let e = release_from("game", "id".to_string(), pkgs, table(None)).unwrap_err();
    assert_eq!(e, ReleaseError::NoPackage { app_name: "game".to_string() });
}

#[test]
fn the_first_package_of_the_name_wins() {
    let pkgs = vec![
        package("game", "1.0.0", vec![target("game", &["bin"])]),
        package("game", "2.0.0", vec![target("game", &["bin"])]),
    ];
    let r = release_from("game", "id".to_string(), pkgs, table(None)).unwrap();
    assert_eq!(r.version, "1.0.0");
}
