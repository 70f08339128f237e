use hilen_release::release::Release;
use hilen_release::win::{
    arch_option, staged_exe, win_image, win_script, win_stage, win_suffix, win_targets, WinTarget,
};

fn game() -> Release {
    Release {
        name: "raiders".to_string(),
        bin: "raiders-app".to_string(),
        version: "1.4.0".to_string(),
        bundle_id: "com.raiders".to_string(),
        download_url: None,
        host_deployment: None,
        target_subdir: None,
        self_update: true,
    }
}

fn t(arch: &str, triple: &str) -> WinTarget {
    WinTarget { arch: arch.to_string(), triple: triple.to_string() }
}

#[test]
fn the_first_arch_flag_picks() {
    let args = vec!["--verbose".to_string(), "--arch=arm64".to_string(), "--arch=x64".to_string()];
    assert_eq!(arch_option(&args), Some("arm64".to_string()));
    assert_eq!(arch_option(&vec!["--arch".to_string()]), None);
    assert_eq!(arch_option(&vec![]), None);
    assert_eq!(arch_option(&vec!["--arch=".to_string()]), Some(String::new()));
}

#[test]
fn the_arch_may_follow_the_flag_as_its_own_argument() {
    let args = vec!["--arch".to_string(), "x64".to_string()];
    assert_eq!(arch_option(&args), Some("x64".to_string()));
    let later = vec!["--arch".to_string(), "arm64".to_string(), "--arch=x64".to_string()];
    assert_eq!(arch_option(&later), Some("arm64".to_string()));
    let first_eq = vec!["--arch=x64".to_string(), "--arch".to_string(), "arm64".to_string()];
    assert_eq!(arch_option(&first_eq), Some("x64".to_string()));
}

#[test]
fn targets_default_to_both() {
    let both = vec![t("x64", "x86_64-pc-windows-msvc"), t("arm64", "aarch64-pc-windows-msvc")];
    assert_eq!(win_targets(None), both);
    assert_eq!(win_targets(Some("x64")), vec![t("x64", "x86_64-pc-windows-msvc")]);
    assert_eq!(win_targets(Some("arm64")), vec![t("arm64", "aarch64-pc-windows-msvc")]);
    assert_eq!(win_targets(Some("x86")), vec![]);
}

#[test]
fn the_script_builds_packs_and_stages_each_target() {
    let r = game();
    let s = win_script(&r, &vec![t("x64", "x86_64-pc-windows-msvc")], "target/win-stage/out");
    assert_eq!(
        s,
        "set -euo pipefail\nrustup component add rust-src\nrustup target add x86_64-pc-windows-msvc\ncargo xwin build --locked --release -p raiders --bin raiders-app --target x86_64-pc-windows-msvc\nmakensis -DNAME=raiders -DVERSION=1.4.0 -DEXE=/work/apps/app/target/release-win/x86_64-pc-windows-msvc/release/raiders-app.exe -DICON=/work/apps/app/assets/icon.ico -DOUTPUT=/work/apps/app/target/win-stage/out/raiders-x64-setup.exe build/release/installer.nsi\ncp /work/apps/app/target/release-win/x86_64-pc-windows-msvc/release/raiders-app.exe /work/apps/app/target/win-stage/out/raiders-x64.exe\n"
    );
    assert_eq!(win_script(&r, &vec![], "s"), "set -euo pipefail\nrustup component add rust-src\n");
}

#[test]
fn windows_paths() {
    let r = game();
    assert_eq!(win_stage(), "target/win-stage/out");
    assert_eq!(win_image(&r), "raiders-win-builder");
    assert_eq!(staged_exe("target/win-stage/out", &r, "arm64", false), "target/win-stage/out/raiders-arm64.exe");
    assert_eq!(staged_exe("target/win-stage/out", &r, "arm64", true), "target/win-stage/out/raiders-arm64-setup.exe");
    assert_eq!(win_suffix("x64", true), "windows-x64-setup.exe");
    assert_eq!(win_suffix("x64", false), "windows-x64.exe");
}
