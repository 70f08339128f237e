//! The Windows release, cross built in docker with cargo-xwin and packed by
//! NSIS. `--arch x64|arm64` (or `--arch=x64|arm64`), default both. Outputs in
//! dist/:
//!   <name>-<v>-windows-<arch>-setup.exe   first install
//!   <name>-<v>-windows-<arch>.exe         the bare exe the updater swaps in
use vstd::prelude::*;
use crate::release::Release;
use crate::text::{chars_of, occurs_at, str_eq, string_of};

verus! {

broadcast use vstd::string::group_string_axioms;

/// A Windows target: the arch as the release names it and its rust triple.
#[derive(Debug, PartialEq, Eq)]
pub struct WinTarget {
    pub arch: String,
    pub triple: String,
}

/// The targets a Windows release knows, in the order it builds them.
pub open spec fn known_targets() -> Seq<(Seq<char>, Seq<char>)> {
    seq![("x64"@, "x86_64-pc-windows-msvc"@), ("arm64"@, "aarch64-pc-windows-msvc"@)]
}

/// The targets picked by `--arch`: all when it is not given, else those of
/// that arch, none for an unknown one.
pub open spec fn picked_targets(only: Option<Seq<char>>) -> Seq<(Seq<char>, Seq<char>)> {
    known_targets().filter(|t: (Seq<char>, Seq<char>)| only is None || only == Some(t.0))
}

/// The view of a list of targets.
pub open spec fn target_views(ts: Seq<WinTarget>) -> Seq<(Seq<char>, Seq<char>)> {
    ts.map_values(|t: WinTarget| (t.arch@, t.triple@))
}

/// What `--arch` names, at its first use: the rest of an argument that starts
/// with `--arch=`, or the argument after a bare `--arch`. A bare `--arch` at
/// the end names nothing.
pub open spec fn arch_choice(args: Seq<Seq<char>>) -> Option<Seq<char>>
    decreases args.len(),
{
    if args.len() == 0 {
        None
    } else if args[0].len() >= 7 && args[0].take(7) == "--arch="@ {
        Some(args[0].skip(7))
    } else if args[0] == "--arch"@ && args.len() >= 2 {
        Some(args[1])
    } else {
        arch_choice(args.drop_first())
    }
}

/// The value of `arg` after `--arch=`, if it starts so.
fn arch_value(arg: &str) -> (r: Option<String>)
    ensures
        r is Some <==> (arg@.len() >= 7 && arg@.take(7) == "--arch="@),
        r matches Some(v) ==> v@ == arg@.skip(7),
{
    let v = chars_of(arg);
    let p = chars_of("--arch=");
    proof {
        reveal_strlit("--arch=");
    }
    assert(p@.len() == 7);
    if v.len() < 7 {
        return None;
    }
    let mut i: usize = 0;
    while i < 7
        invariant
            i <= 7 <= v@.len(),
            p@ == "--arch="@,
            p@.len() == 7,
            v@ == arg@,
            forall|j: int| 0 <= j < i ==> v@[j] == p@[j],
        decreases 7 - i,
    {
        if v[i] != p[i] {
            assert(v@.take(7)[i as int] != p@[i as int]);
            assert(v@.take(7) != p@);
            return None;
        }
        i = i + 1;
    }
    assert(v@.take(7) =~= p@);
    let n = v.len();
    let s = string_of(&v, 7, n);
    assert(v@.subrange(7, n as int) =~= v@.skip(7));
    Some(s)
}

/// The arch that the arguments pick, `None` for both.
pub fn arch_option(args: &Vec<String>) -> (r: Option<String>)
    ensures
        match r {
            Some(v) => arch_choice(crate::text::views(args@)) == Some(v@),
            None => arch_choice(crate::text::views(args@)) is None,
        },
{
    let ghost all = crate::text::views(args@);
    let mut i: usize = 0;
    assert(all.skip(0) =~= all);
    while i < args.len()
        invariant
            i <= args@.len(),
            all == crate::text::views(args@),
            arch_choice(all) == arch_choice(all.skip(i as int)),
        decreases args@.len() - i,
    {
        assert(all.skip(i as int)[0] == args@[i as int]@);
        match arch_value(args[i].as_str()) {
            Some(v) => {
                return Some(v);
            },
            None => {
                if str_eq(args[i].as_str(), "--arch") && i + 1 < args.len() {
                    assert(all.skip(i as int)[1] == args@[i + 1]@);
                    return Some(args[i + 1].clone());
                }
                assert(all.skip(i as int).drop_first() =~= all.skip(i + 1));
                i = i + 1;
            },
        }
    }
    assert(all.skip(i as int).len() == 0);
    None
}

fn target(arch: &str, triple: &str) -> (t: WinTarget)
    ensures
        t.arch@ == arch@,
        t.triple@ == triple@,
{
    WinTarget { arch: arch.to_owned(), triple: triple.to_owned() }
}

/// The targets to build: all, or those of the picked arch, which is none for
/// an arch the release does not know.
pub fn win_targets(only: Option<&str>) -> (r: Vec<WinTarget>)
    ensures
        target_views(r@) == picked_targets(
            match only {
                Some(o) => Some(o@),
                None => None,
            },
        ),
{
    let ghost o = match only {
        Some(o) => Some(o@),
        None => None,
    };
    let ghost f = |t: (Seq<char>, Seq<char>)| o is None || o == Some(t.0);
    let ghost k = known_targets();
    proof {
        reveal_with_fuel(Seq::filter, 3);
        assert(k.drop_last().drop_last() =~= Seq::<(Seq<char>, Seq<char>)>::empty());
        assert(k.drop_last() =~= seq![k[0]]);
    }
    let mut r: Vec<WinTarget> = Vec::new();
    let take_x64 = match only {
        None => true,
        Some(o) => str_eq(o, "x64"),
    };
    if take_x64 {
        r.push(target("x64", "x86_64-pc-windows-msvc"));
    }
    let take_arm = match only {
        None => true,
        Some(o) => str_eq(o, "arm64"),
    };
    if take_arm {
        r.push(target("arm64", "aarch64-pc-windows-msvc"));
    }
    assert(target_views(r@) =~= k.filter(f));
    r
}

/// The lines of the build script for one target: build the exe, pack it in
/// its setup, and stage both under `stage`.
pub open spec fn target_script(r: Release, t: (Seq<char>, Seq<char>), stage: Seq<char>) -> Seq<char> {
    let (arch, triple) = t;
    "rustup target add "@ + triple + "\ncargo xwin build --locked --release -p "@ + r.name@
        + " --bin "@ + r.bin@ + " --target "@ + triple + "\nmakensis -DNAME="@ + r.name@
        + " -DVERSION="@ + r.version@ + " -DEXE=/work/apps/app/target/release-win/"@ + triple
        + "/release/"@ + r.bin@ + ".exe -DICON=/work/apps/app/assets/icon.ico -DOUTPUT=/work/apps/app/"@
        + stage + "/"@ + r.name@ + "-"@ + arch + "-setup.exe build/release/installer.nsi\ncp /work/apps/app/target/release-win/"@
        + triple + "/release/"@ + r.bin@ + ".exe /work/apps/app/"@ + stage + "/"@ + r.name@ + "-"@
        + arch + ".exe\n"@
}

/// The script that builds every target in the container.
pub open spec fn build_script(r: Release, ts: Seq<(Seq<char>, Seq<char>)>, stage: Seq<char>) -> Seq<
    char,
>
    decreases ts.len(),
{
    if ts.len() == 0 {
        "set -euo pipefail\nrustup component add rust-src\n"@
    } else {
        build_script(r, ts.drop_last(), stage) + target_script(r, ts.last(), stage)
    }
}

/// The build script is the header followed by the block of each target in
/// order: adding a target appends exactly its block.
pub proof fn lemma_build_script_appends_each_target(
    r: Release,
    ts: Seq<(Seq<char>, Seq<char>)>,
    t: (Seq<char>, Seq<char>),
    stage: Seq<char>,
)
    ensures
        build_script(r, Seq::empty(), stage) == "set -euo pipefail\nrustup component add rust-src\n"@,
        build_script(r, ts.push(t), stage) == build_script(r, ts, stage) + target_script(r, t, stage),
        build_script(r, ts.push(t), stage).len() > build_script(r, ts, stage).len(),
{
    assert(ts.push(t).drop_last() =~= ts);
    assert(ts.push(t).last() == t);
    reveal_strlit("rustup target add ");
    assert("rustup target add "@.len() == 18);
    assert(target_script(r, t, stage).len() >= 18);
}

/// The build script holds the block of every target it is given.
pub proof fn lemma_build_script_builds_every_target(
    r: Release,
    ts: Seq<(Seq<char>, Seq<char>)>,
    stage: Seq<char>,
    i: int,
)
    requires
        0 <= i < ts.len(),
    ensures
        exists|at: int| occurs_at(build_script(r, ts, stage), target_script(r, ts[i], stage), at),
    decreases ts.len(),
{
    let prev = ts.drop_last();
    let whole = build_script(r, ts, stage);
    let head = build_script(r, prev, stage);
    if i == ts.len() - 1 {
        let block = target_script(r, ts[i], stage);
        assert(whole == head + block);
        assert(whole.subrange(head.len() as int, (head.len() + block.len()) as int) =~= block);
        assert(occurs_at(whole, block, head.len() as int));
    } else {
        lemma_build_script_builds_every_target(r, prev, stage, i);
        assert(prev[i] == ts[i]);
        let block = target_script(r, ts[i], stage);
        let at = choose|at: int| occurs_at(head, block, at);
        assert(whole == head + target_script(r, ts.last(), stage));
        assert(whole.subrange(at, at + block.len()) =~= head.subrange(at, at + block.len()));
        assert(occurs_at(whole, block, at));
    }
}

/// The lines of `target_script`.
fn target_block(r: &Release, arch: &str, triple: &str, stage: &str) -> (s: String)
    ensures
        s@ == target_script(*r, (arch@, triple@), stage@),
{
    let mut s = String::new();
    let name = r.name.as_str();
    let bin = r.bin.as_str();
    s.append("rustup target add ");
    s.append(triple);
    s.append("\ncargo xwin build --locked --release -p ");
    s.append(name);
    s.append(" --bin ");
    s.append(bin);
    s.append(" --target ");
    s.append(triple);
    s.append("\nmakensis -DNAME=");
    s.append(name);
    s.append(" -DVERSION=");
    s.append(r.version.as_str());
    s.append(" -DEXE=/work/apps/app/target/release-win/");
    s.append(triple);
    s.append("/release/");
    s.append(bin);
    s.append(".exe -DICON=/work/apps/app/assets/icon.ico -DOUTPUT=/work/apps/app/");
    s.append(stage);
    s.append("/");
    s.append(name);
    s.append("-");
    s.append(arch);
    s.append("-setup.exe build/release/installer.nsi\ncp /work/apps/app/target/release-win/");
    s.append(triple);
    s.append("/release/");
    s.append(bin);
    s.append(".exe /work/apps/app/");
    s.append(stage);
    s.append("/");
    s.append(name);
    s.append("-");
    s.append(arch);
    s.append(".exe\n");
    s
}

/// The build script of `targets`, staging under `stage`.
pub fn win_script(r: &Release, targets: &Vec<WinTarget>, stage: &str) -> (s: String)
    ensures
        s@ == build_script(*r, target_views(targets@), stage@),
{
    let ghost all = target_views(targets@);
    let mut s = String::new();
    s.append("set -euo pipefail\nrustup component add rust-src\n");
    for i in 0..targets.len()
        invariant
            all == target_views(targets@),
            s@ == build_script(*r, all.take(i as int), stage@),
    {
        assert(all.take(i + 1).drop_last() =~= all.take(i as int));
        let block = target_block(r, targets[i].arch.as_str(), targets[i].triple.as_str(), stage);
        s.append(block.as_str());
    }
    assert(all.take(targets.len() as int) =~= all);
    s
}

/// Where the container stages what the host reads back. target/release-win
/// is a docker volume, so the output goes to a sibling folder.
pub fn win_stage() -> (r: &'static str)
    ensures
        r@ == "target/win-stage/out"@,
{
    "target/win-stage/out"
}

/// The image that builds the Windows release of `r`.
pub fn win_image(r: &Release) -> (s: String)
    ensures
        s@ == r.name@ + "-win-builder"@,
{
    let mut s = r.name.clone();
    s.append("-win-builder");
    s
}

/// The staged bare exe of `arch`, or its setup when `setup`.
pub fn staged_exe(stage: &str, r: &Release, arch: &str, setup: bool) -> (s: String)
    ensures
        s@ == stage@ + "/"@ + r.name@ + "-"@ + arch@ + if setup {
            "-setup.exe"@
        } else {
            ".exe"@
        },
{
    let mut s = String::new();
    s.append(stage);
    s.append("/");
    s.append(r.name.as_str());
    s.append("-");
    s.append(arch);
    if setup {
        s.append("-setup.exe");
    } else {
        s.append(".exe");
    }
    s
}

/// The dist/ suffix of the bare exe of `arch`, or of its setup when `setup`.
pub fn win_suffix(arch: &str, setup: bool) -> (s: String)
    ensures
        s@ == "windows-"@ + arch@ + if setup {
            "-setup.exe"@
        } else {
            ".exe"@
        },
{
    let mut s = String::new();
    s.append("windows-");
    s.append(arch);
    if setup {
        s.append("-setup.exe");
    } else {
        s.append(".exe");
    }
    s
}

} // verus!
