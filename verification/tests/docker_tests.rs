use hilen_release::docker::{build_image, run_in};

#[test]
fn the_image_is_built_from_build_release() {
    assert_eq!(
        build_image("game-win-builder", "Dockerfile.windows", "linux/amd64"),
        "docker build --platform linux/amd64 -f build/release/Dockerfile.windows -t game-win-builder build/release"
    );
}

#[test]
fn the_run_command_mounts_caches_per_lane_and_arch() {
    let c = run_in(
        "my-game",
        "my-game-win-builder",
        "linux/amd64",
        "release-win",
        "win-stage",
        "make all",
        "/src/apps/my-game",
        Some("/src/hilen"),
        "1000",
        "1001",
    );
    let expected = "docker run --rm --platform linux/amd64 \\\n  -v \"/src/apps/my-game:/work/apps/app\" \\\n  -v /src/hilen:/work/hilen \\\n  -v my-game-release-win-linux-amd64-target:/work/apps/app/target/release-win \\\n  -v release-win-linux-amd64-cargo-registry:/usr/local/cargo/registry \\\n  -v release-win-linux-amd64-cargo-git:/usr/local/cargo/git \\\n  -v release-win-linux-amd64-rustup:/usr/local/rustup \\\n  -e CARGO_TARGET_DIR=/work/apps/app/target/release-win \\\n  -e MY_GAME_SENTRY_URL \\\n  -e HILEN_SESSION_KEY \\\n  -e HILEN_RELEASE \\\n  my-game-win-builder bash -c 'trap \"chown -R 1000:1001 /work/apps/app/target/win-stage\" EXIT; make all'";
    assert_eq!(c, expected);
}

#[test]
fn without_the_engine_checkout_its_mount_is_empty() {
    let c = run_in("g", "i", "linux/arm64", "l", "s", "x", "/w", None, "0", "0");
    assert!(c.contains("\"/w:/work/apps/app\" \\\n   \\\n  -v g-l-linux-arm64-target"));
}

#[test]
fn two_apps_share_caches_but_not_targets() {
    let a = run_in("a", "i", "linux/amd64", "l", "s", "x", "/w", None, "0", "0");
    let b = run_in("b", "i", "linux/amd64", "l", "s", "x", "/w", None, "0", "0");
    assert!(a.contains("-v a-l-linux-amd64-target:"));
    assert!(b.contains("-v b-l-linux-amd64-target:"));
    assert!(a.contains("-v l-linux-amd64-cargo-registry:") && b.contains("-v l-linux-amd64-cargo-registry:"));
}
