//! The docker lanes, shared by the Linux and Windows releases: the commands
//! that build the tool image and run one shell string inside it with the repo
//! mounted, plus named volumes for the cargo caches so a second run does not
//! start from zero. On a dev box the engine checkout next to the apps dir is
//! mounted too, so a path dependency on it resolves inside the container the
//! same way it does outside.
use vstd::prelude::*;
use crate::text::{env_stem, env_stem_of, occurs_at, replace_char, swap_char};

verus! {

broadcast use vstd::string::group_string_axioms;

/// The command that builds the image `name` from `build/release/<dockerfile>`.
pub fn build_image(name: &str, dockerfile: &str, platform: &str) -> (r: String)
    ensures
        r@ == "docker build --platform "@ + platform@ + " -f build/release/"@ + dockerfile@
            + " -t "@ + name@ + " build/release"@,
{
    let mut r = String::new();
    r.append("docker build --platform ");
    r.append(platform);
    r.append(" -f build/release/");
    r.append(dockerfile);
    r.append(" -t ");
    r.append(name);
    r.append(" build/release");
    r
}

/// The mount of the engine checkout at `engine`, nothing when there is none.
pub open spec fn engine_mount(engine: Option<Seq<char>>) -> Seq<char> {
    match engine {
        Some(p) => "-v "@ + p + ":/work/hilen"@,
        None => Seq::empty(),
    }
}

/// The app's Sentry DSN variable. The app embeds the DSN at compile time, the
/// compiler runs in the container, and only the name goes on the command
/// line: docker copies the value from the host env, so no log shows it.
pub open spec fn sentry_env(app: Seq<char>) -> Seq<char> {
    env_stem(app) + "_SENTRY_URL"@
}

/// The docker arch of a platform: its `/` made `-`.
pub open spec fn docker_arch(platform: Seq<char>) -> Seq<char> {
    swap_char(platform, '/', '-')
}

/// The volume that the app builds into on one lane and arch. It carries the
/// app name, so two apps never build into one folder.
pub open spec fn target_volume(app: Seq<char>, lane: Seq<char>, platform: Seq<char>) -> Seq<char> {
    app + "-"@ + lane + "-"@ + docker_arch(platform) + "-target"@
}

/// A download cache of one lane and arch, shared by every app on the box.
pub open spec fn cache_volume(lane: Seq<char>, platform: Seq<char>, cache: Seq<char>) -> Seq<
    char,
> {
    lane + "-"@ + docker_arch(platform) + "-"@ + cache
}

/// Two apps never build into one folder: on the same lane and platform their
/// target volumes differ, while the download caches that `run_in_command`
/// mounts are named by lane and arch alone.
pub proof fn lemma_apps_get_their_own_target_volume(
    a1: Seq<char>,
    a2: Seq<char>,
    lane: Seq<char>,
    platform: Seq<char>,
)
    requires
        a1 != a2,
    ensures
        target_volume(a1, lane, platform) != target_volume(a2, lane, platform),
{
    let rest = "-"@ + lane + "-"@ + docker_arch(platform) + "-target"@;
    let t1 = target_volume(a1, lane, platform);
    let t2 = target_volume(a2, lane, platform);
    assert(t1 =~= a1 + rest);
    assert(t2 =~= a2 + rest);
    if t1 == t2 {
        assert(a1.len() == a2.len());
        assert(t1.take(a1.len() as int) =~= a1);
        assert(t2.take(a2.len() as int) =~= a2);
    }
}

/// The opening of every `run_in_command`, up to the engine mount.
pub open spec fn run_in_head(platform: Seq<char>, cwd: Seq<char>) -> Seq<char> {
    "docker run --rm --platform "@ + platform + " \\\n  -v \""@ + cwd + ":/work/apps/app\" \\\n  "@
}

/// The variables that every lane passes into the container by name: the
/// session key, and the release mark that makes the engine build script
/// refuse the inspect feature and the development key.
pub open spec fn passed_by_name() -> Seq<char> {
    " \\\n  -e HILEN_SESSION_KEY \\\n  -e HILEN_RELEASE \\\n  "@
}

/// Whether the engine checkout is there changes only its mount: without it
/// the command is the one with it, the mount left out.
#[verifier::rlimit(60)]
pub proof fn lemma_engine_changes_only_its_mount(
    app: Seq<char>,
    image: Seq<char>,
    platform: Seq<char>,
    lane: Seq<char>,
    stage: Seq<char>,
    script: Seq<char>,
    cwd: Seq<char>,
    engine: Seq<char>,
    uid: Seq<char>,
    gid: Seq<char>,
)
    ensures
        ({
            let h = run_in_head(platform, cwd);
            let without = run_in_command(app, image, platform, lane, stage, script, cwd, None, uid, gid);
            let with = run_in_command(
                app,
                image,
                platform,
                lane,
                stage,
                script,
                cwd,
                Some(engine),
                uid,
                gid,
            );
            &&& without.len() >= h.len()
            &&& without.take(h.len() as int) == h
            &&& with == h + "-v "@ + engine + ":/work/hilen"@ + without.skip(h.len() as int)
        }),
{
    let h = run_in_head(platform, cwd);
    let rest = " \\\n  -v "@ + target_volume(app, lane, platform) + ":/work/apps/app/target/"@ + lane
        + " \\\n  -v "@ + cache_volume(lane, platform, "cargo-registry"@)
        + ":/usr/local/cargo/registry \\\n  -v "@ + cache_volume(lane, platform, "cargo-git"@)
        + ":/usr/local/cargo/git \\\n  -v "@ + cache_volume(lane, platform, "rustup"@)
        + ":/usr/local/rustup \\\n  -e CARGO_TARGET_DIR=/work/apps/app/target/"@ + lane
        + " \\\n  -e "@ + sentry_env(app) + passed_by_name() + image + " bash -c 'trap \"chown -R "@
        + uid + ":"@ + gid + " /work/apps/app/target/"@ + stage + "\" EXIT; "@ + script + "'"@;
    let without = run_in_command(app, image, platform, lane, stage, script, cwd, None, uid, gid);
    let with = run_in_command(app, image, platform, lane, stage, script, cwd, Some(engine), uid, gid);
    assert(without =~= h + rest);
    assert(with =~= h + ("-v "@ + engine + ":/work/hilen"@) + rest);
    assert(without.take(h.len() as int) =~= h);
    assert(without.skip(h.len() as int) =~= rest);
    assert(with =~= h + "-v "@ + engine + ":/work/hilen"@ + rest);
}

/// Every lane's command passes the session key and the release mark into
/// the container, engine checkout or not.
pub proof fn lemma_release_mark_always_reaches_the_build(
    app: Seq<char>,
    image: Seq<char>,
    platform: Seq<char>,
    lane: Seq<char>,
    stage: Seq<char>,
    script: Seq<char>,
    cwd: Seq<char>,
    engine: Option<Seq<char>>,
    uid: Seq<char>,
    gid: Seq<char>,
)
    ensures
        exists|at: int|
            occurs_at(
                run_in_command(app, image, platform, lane, stage, script, cwd, engine, uid, gid),
                passed_by_name(),
                at,
            ),
{
    let cmd = run_in_command(app, image, platform, lane, stage, script, cwd, engine, uid, gid);
    let front = run_in_head(platform, cwd) + engine_mount(engine) + " \\\n  -v "@ + target_volume(
        app,
        lane,
        platform,
    ) + ":/work/apps/app/target/"@ + lane + " \\\n  -v "@ + cache_volume(
        lane,
        platform,
        "cargo-registry"@,
    ) + ":/usr/local/cargo/registry \\\n  -v "@ + cache_volume(lane, platform, "cargo-git"@)
        + ":/usr/local/cargo/git \\\n  -v "@ + cache_volume(lane, platform, "rustup"@)
        + ":/usr/local/rustup \\\n  -e CARGO_TARGET_DIR=/work/apps/app/target/"@ + lane
        + " \\\n  -e "@ + sentry_env(app);
    let back = image + " bash -c 'trap \"chown -R "@ + uid + ":"@ + gid
        + " /work/apps/app/target/"@ + stage + "\" EXIT; "@ + script + "'"@;
    let l = passed_by_name();
    assert(cmd =~= front + l + back);
    assert(cmd.subrange(front.len() as int, (front.len() + l.len()) as int) =~= l);
    assert(occurs_at(cmd, l, front.len() as int));
}

/// The command that runs `script` in `image`, as `run_in` of the Linux and
/// Windows lanes builds it. `stage` is the folder under target/ that the
/// script writes for the host to read back, handed back to the host's user
/// `uid:gid` on exit since the container runs as root. The download caches are
/// shared by every app on the box; the target volume carries the app name so
/// two apps never build into one folder. The session key and the release mark
/// pass by name for the same reason as the DSN.
pub open spec fn run_in_command(
    app: Seq<char>,
    image: Seq<char>,
    platform: Seq<char>,
    lane: Seq<char>,
    stage: Seq<char>,
    script: Seq<char>,
    cwd: Seq<char>,
    engine: Option<Seq<char>>,
    uid: Seq<char>,
    gid: Seq<char>,
) -> Seq<char> {
    "docker run --rm --platform "@ + platform + " \\\n  -v \""@ + cwd + ":/work/apps/app\" \\\n  "@
        + engine_mount(engine) + " \\\n  -v "@ + target_volume(app, lane, platform)
        + ":/work/apps/app/target/"@ + lane + " \\\n  -v "@ + cache_volume(lane, platform, "cargo-registry"@)
        + ":/usr/local/cargo/registry \\\n  -v "@ + cache_volume(lane, platform, "cargo-git"@)
        + ":/usr/local/cargo/git \\\n  -v "@ + cache_volume(lane, platform, "rustup"@)
        + ":/usr/local/rustup \\\n  -e CARGO_TARGET_DIR=/work/apps/app/target/"@ + lane
        + " \\\n  -e "@ + sentry_env(app)
        + " \\\n  -e HILEN_SESSION_KEY \\\n  -e HILEN_RELEASE \\\n  "@ + image
        + " bash -c 'trap \"chown -R "@ + uid + ":"@ + gid + " /work/apps/app/target/"@ + stage
        + "\" EXIT; "@ + script + "'"@
}

/// The command of `run_in_command`; `engine` is the engine checkout's
/// canonical path when the checkout is there.
#[verifier::rlimit(60)]
pub fn run_in(
    app: &str,
    image: &str,
    platform: &str,
    lane: &str,
    stage: &str,
    script: &str,
    cwd: &str,
    engine: Option<&str>,
    uid: &str,
    gid: &str,
) -> (r: String)
    ensures
        r@ == run_in_command(
            app@,
            image@,
            platform@,
            lane@,
            stage@,
            script@,
            cwd@,
            match engine {
                Some(p) => Some(p@),
                None => None,
            },
            uid@,
            gid@,
        ),
{
    let arch = replace_char(platform, '/', '-');
    let arch = arch.as_str();
    let mut mount = String::new();
    match engine {
        Some(p) => {
            mount.append("-v ");
            mount.append(p);
            mount.append(":/work/hilen");
        },
        None => {},
    }
    let mut sentry = env_stem_of(app);
    sentry.append("_SENTRY_URL");
    let mut r = String::new();
    r.append("docker run --rm --platform ");
    r.append(platform);
    r.append(" \\\n  -v \"");
    r.append(cwd);
    r.append(":/work/apps/app\" \\\n  ");
    r.append(mount.as_str());
    r.append(" \\\n  -v ");
    r.append(app);
    r.append("-");
    r.append(lane);
    r.append("-");
    r.append(arch);
    r.append("-target");
    r.append(":/work/apps/app/target/");
    r.append(lane);
    r.append(" \\\n  -v ");
    r.append(lane);
    r.append("-");
    r.append(arch);
    r.append("-");
    r.append("cargo-registry");
    r.append(":/usr/local/cargo/registry \\\n  -v ");
    r.append(lane);
    r.append("-");
    r.append(arch);
    r.append("-");
    r.append("cargo-git");
    r.append(":/usr/local/cargo/git \\\n  -v ");
    r.append(lane);
    r.append("-");
    r.append(arch);
    r.append("-");
    r.append("rustup");
    r.append(":/usr/local/rustup \\\n  -e CARGO_TARGET_DIR=/work/apps/app/target/");
    r.append(lane);
    r.append(" \\\n  -e ");
    r.append(sentry.as_str());
    r.append(" \\\n  -e HILEN_SESSION_KEY \\\n  -e HILEN_RELEASE \\\n  ");
    r.append(image);
    r.append(" bash -c 'trap \"chown -R ");
    r.append(uid);
    r.append(":");
    r.append(gid);
    r.append(" /work/apps/app/target/");
    r.append(stage);
    r.append("\" EXIT; ");
    r.append(script);
    r.append("'");
    assert(r@ =~= run_in_command(
        app@,
        image@,
        platform@,
        lane@,
        stage@,
        script@,
        cwd@,
        match engine {
            Some(p) => Some(p@),
            None => None,
        },
        uid@,
        gid@,
    ));
    r
}

} // verus!
