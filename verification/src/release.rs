//! What the desktop release scripts need to know of a release: its package
//! name, binary, version and bundle id, and where and whether its binaries are
//! served and signed. The package is the one named like the app in cargo
//! metadata; its binary is picked by `release_from`.
use vstd::prelude::*;
use crate::text::{joined, join_strs, lemma_strip_trailing, str_eq, str_views, strip_trailing, trim_end_char};

verus! {

broadcast use vstd::string::group_string_axioms;

/// A release of one app.
#[derive(Debug)]
pub struct Release {
    /// cargo package name, the artifact file name prefix
    pub name: String,
    /// the binary target of that package, the file name cargo builds
    pub bin: String,
    pub version: String,
    pub bundle_id: String,
    /// where the binaries are served, no trailing slash
    pub download_url: Option<String>,
    /// the beekeeper deployment whose data/download/ holds the binaries
    pub host_deployment: Option<String>,
    /// subdirectory under that data/download/
    pub target_subdir: Option<String>,
    /// false for an app without the engine updater, its binaries are not signed
    pub self_update: bool,
}

/// Why a release cannot be described.
#[derive(Debug, PartialEq, Eq)]
pub enum ReleaseError {
    /// `download_url` is not set in the `[release]` table of hilen.toml.
    MissingDownloadUrl,
    /// `host_deployment` is not set in the `[release]` table of hilen.toml.
    MissingHostDeployment,
    /// `target_subdir` is not set in the `[release]` table of hilen.toml.
    MissingTargetSubdir,
    /// cargo metadata has no package named like the app.
    NoPackage { app_name: String },
    /// The package has no binary named like it and not exactly one binary.
    NoSingleBinary { package: String, bins: Vec<String> },
}

/// A target of a cargo package, as cargo metadata lists it.
#[derive(Debug)]
pub struct Target {
    pub name: String,
    pub kind: Vec<String>,
}

/// A package of cargo metadata.
#[derive(Debug)]
pub struct Package {
    pub name: String,
    pub version: String,
    pub targets: Vec<Target>,
}

/// The `[release]` table of hilen.toml. The download host fields are for
/// apps served from a beekeeper deployment; an app shipped some other way
/// leaves them out.
#[derive(Debug)]
pub struct Distribution {
    pub download_url: Option<String>,
    pub host_deployment: Option<String>,
    pub target_subdir: Option<String>,
    pub self_update: bool,
}

/// The default of `self_update`: an app has the updater unless it says not.
pub fn yes() -> (r: bool)
    ensures
        r,
{
    true
}

/// A target that cargo builds as a binary.
pub open spec fn is_bin(t: Target) -> bool {
    exists|k: int| 0 <= k < t.kind@.len() && (#[trigger] t.kind@[k])@ == "bin"@
}

/// The names of the binary targets, in the order cargo lists them.
pub open spec fn bin_names(targets: Seq<Target>) -> Seq<Seq<char>>
    decreases targets.len(),
{
    if targets.len() == 0 {
        Seq::empty()
    } else if is_bin(targets.last()) {
        bin_names(targets.drop_last()).push(targets.last().name@)
    } else {
        bin_names(targets.drop_last())
    }
}

/// The binary that is the app: the one named like the package, else the only
/// one there is. Side binaries such as a gallery are passed over.
pub open spec fn pick_bin(package: Seq<char>, bins: Seq<Seq<char>>) -> Option<Seq<char>> {
    if bins.contains(package) {
        Some(package)
    } else if bins.len() == 1 {
        Some(bins[0])
    } else {
        None
    }
}

/// `i` is the first package named `name`.
pub open spec fn is_first_named(pkgs: Seq<Package>, name: Seq<char>, i: int) -> bool {
    &&& 0 <= i < pkgs.len()
    &&& pkgs[i].name@ == name
    &&& forall|j: int| 0 <= j < i ==> (#[trigger] pkgs[j]).name@ != name
}

/// Some package is named `name`.
pub open spec fn has_named(pkgs: Seq<Package>, name: Seq<char>) -> bool {
    exists|i: int| 0 <= i < pkgs.len() && (#[trigger] pkgs[i]).name@ == name
}

/// The first package named `name`, cargo metadata's pick for the app.
pub open spec fn first_named(pkgs: Seq<Package>, name: Seq<char>) -> Package {
    pkgs[choose|i: int| is_first_named(pkgs, name, i)]
}

proof fn lemma_first_named(pkgs: Seq<Package>, name: Seq<char>, i: int)
    requires
        is_first_named(pkgs, name, i),
    ensures
        first_named(pkgs, name) == pkgs[i],
{
    let c = choose|x: int| is_first_named(pkgs, name, x);
    assert(is_first_named(pkgs, name, c));
    if c < i {
        assert(pkgs[c].name@ != name);
    } else if i < c {
        assert(pkgs[i].name@ != name);
    }
}

/// `url` as a release keeps it: without trailing slashes.
pub open spec fn served_at(url: Option<String>) -> Option<Seq<char>> {
    match url {
        Some(u) => Some(strip_trailing(u@, '/')),
        None => None,
    }
}

/// Where a release's binaries are served never ends in a slash, so paths
/// join onto it with one.
pub proof fn lemma_served_url_has_no_trailing_slash(url: Option<String>)
    ensures
        served_at(url) matches Some(u) ==> (u.len() == 0 || u.last() != '/'),
{
    if let Some(u) = url {
        lemma_strip_trailing(u@, '/');
    }
}

/// A set download URL is always kept: only trailing slashes leave it. The
/// kept URL is the start of the written one and everything cut off is a
/// slash, so a URL written without a trailing slash is kept unchanged.
pub proof fn lemma_served_url_is_kept(url: Option<String>)
    ensures
        url is Some <==> served_at(url) is Some,
        url matches Some(u) ==> ({
            let t = served_at(url)->0;
            &&& t.len() <= u@.len()
            &&& t == u@.take(t.len() as int)
            &&& forall|i: int| t.len() <= i < u@.len() ==> u@[i] == '/'
            &&& (u@.len() == 0 || u@.last() != '/') ==> t == u@
        }),
{
    if let Some(u) = url {
        lemma_strip_trailing(u@, '/');
    }
}

/// A target enters the list that the app binary is picked from exactly when
/// one of its kinds is the text "bin": a build script, test, example or
/// library target never does, and a binary target is added at its place in
/// cargo's order.
pub proof fn lemma_only_bin_targets_are_listed(ts: Seq<Target>, t: Target)
    ensures
        (exists|k: int| 0 <= k < t.kind@.len() && (#[trigger] t.kind@[k])@ == "bin"@)
            ==> bin_names(ts.push(t)) == bin_names(ts).push(t.name@),
        (forall|k: int| 0 <= k < t.kind@.len() ==> (#[trigger] t.kind@[k])@ != "bin"@)
            ==> bin_names(ts.push(t)) == bin_names(ts),
{
    assert(ts.push(t).drop_last() =~= ts);
    assert(ts.push(t).last() == t);
}

/// The view of an optional string.
pub open spec fn opt_view(s: Option<String>) -> Option<Seq<char>> {
    match s {
        Some(u) => Some(u@),
        None => None,
    }
}

impl Release {
    /// `kukareker-0.2.0-mac-universal.dmg` style names.
    pub fn artifact(&self, suffix: &str) -> (r: String)
        ensures
            r@ == self.name@ + "-"@ + self.version@ + "-"@ + suffix@,
    {
        let mut r = self.name.clone();
        r.append("-");
        r.append(self.version.as_str());
        r.append("-");
        r.append(suffix);
        r
    }

    pub fn download_url(&self) -> (r: Result<&str, ReleaseError>)
        ensures
            r is Ok <==> self.download_url is Some,
            r matches Ok(u) ==> u@ == self.download_url->0@,
            r matches Err(e) ==> e == ReleaseError::MissingDownloadUrl,
    {
        match &self.download_url {
            Some(u) => Ok(u.as_str()),
            None => Err(ReleaseError::MissingDownloadUrl),
        }
    }

    pub fn host_deployment(&self) -> (r: Result<&str, ReleaseError>)
        ensures
            r is Ok <==> self.host_deployment is Some,
            r matches Ok(u) ==> u@ == self.host_deployment->0@,
            r matches Err(e) ==> e == ReleaseError::MissingHostDeployment,
    {
        match &self.host_deployment {
            Some(u) => Ok(u.as_str()),
            None => Err(ReleaseError::MissingHostDeployment),
        }
    }

    pub fn target_subdir(&self) -> (r: Result<&str, ReleaseError>)
        ensures
            r is Ok <==> self.target_subdir is Some,
            r matches Ok(u) ==> u@ == self.target_subdir->0@,
            r matches Err(e) ==> e == ReleaseError::MissingTargetSubdir,
    {
        match &self.target_subdir {
            Some(u) => Ok(u.as_str()),
            None => Err(ReleaseError::MissingTargetSubdir),
        }
    }

    /// The command that signs `files` for the updater, `None` for an app
    /// without it, whose binaries are not signed.
    pub fn sign(&self, files: &[&str]) -> (r: Option<String>)
        ensures
            r is Some <==> self.self_update,
            r matches Some(c) ==> c@ == "rust build/release/sign.rs "@ + joined(
                str_views(files@),
                " "@,
            ),
    {
        if !self.self_update {
            return None;
        }
        let mut c = String::new();
        c.append("rust build/release/sign.rs ");
        let list = join_strs(files, " ");
        c.append(list.as_str());
        Some(c)
    }
}

/// Whether `kind` lists "bin".
fn lists_bin(t: &Target) -> (r: bool)
    ensures
        r == is_bin(*t),
{
    let mut k: usize = 0;
    while k < t.kind.len()
        invariant
            k <= t.kind@.len(),
            forall|x: int| 0 <= x < k ==> (#[trigger] t.kind@[x])@ != "bin"@,
        decreases t.kind@.len() - k,
    {
        if str_eq(t.kind[k].as_str(), "bin") {
            return true;
        }
        k = k + 1;
    }
    false
}

/// The names of the binary targets of `targets`.
fn bins_of(targets: &Vec<Target>) -> (r: Vec<String>)
    ensures
        crate::text::views(r@) == bin_names(targets@),
{
    let mut r: Vec<String> = Vec::new();
    for i in 0..targets.len()
        invariant
            crate::text::views(r@) == bin_names(targets@.take(i as int)),
    {
        let ghost before = r@;
        assert(targets@.take(i + 1).drop_last() =~= targets@.take(i as int));
        assert(targets@.take(i + 1).last() == targets@[i as int]);
        if lists_bin(&targets[i]) {
            r.push(targets[i].name.clone());
            assert(crate::text::views(r@) =~= crate::text::views(before).push(targets@[i as int].name@));
        }
    }
    assert(targets@.take(targets.len() as int) =~= targets@);
    r
}

/// Whether `bins` holds `name`.
fn holds(bins: &Vec<String>, name: &str) -> (r: bool)
    ensures
        r == crate::text::views(bins@).contains(name@),
{
    let ghost vs = crate::text::views(bins@);
    let mut j: usize = 0;
    while j < bins.len()
        invariant
            j <= bins@.len(),
            vs == crate::text::views(bins@),
            forall|x: int| 0 <= x < j ==> vs[x] != name@,
        decreases bins@.len() - j,
    {
        if str_eq(bins[j].as_str(), name) {
            assert(vs[j as int] == name@);
            return true;
        }
        j = j + 1;
    }
    false
}

/// Describes the release of the app `app_name` from cargo metadata's
/// packages and the `[release]` table of hilen.toml. The package is the first
/// one named like the app; its version is the release's. A binary named like
/// the package is the app; a lone binary under another name is the app too,
/// which a workspace needs when another crate owns the package name.
pub fn release_from(
    app_name: &str,
    bundle_id: String,
    packages: Vec<Package>,
    table: Distribution,
) -> (r: Result<Release, ReleaseError>)
    ensures
        !has_named(packages@, app_name@) <==> r matches Err(ReleaseError::NoPackage { .. }),
        r matches Err(ReleaseError::NoPackage { app_name: a }) ==> a@ == app_name@,
        has_named(packages@, app_name@) ==> ({
            let p = first_named(packages@, app_name@);
            let bins = bin_names(p.targets@);
            &&& (pick_bin(p.name@, bins) is None <==> r matches Err(
                ReleaseError::NoSingleBinary { .. },
            ))
            &&& (r matches Err(ReleaseError::NoSingleBinary { package, bins: listed }) ==> {
                &&& package@ == p.name@
                &&& crate::text::views(listed@) == bins
            })
            &&& (r matches Ok(rel) ==> {
                &&& rel.name@ == p.name@
                &&& Some(rel.bin@) == pick_bin(p.name@, bins)
                &&& rel.version@ == p.version@
                &&& rel.bundle_id@ == bundle_id@
                &&& opt_view(rel.download_url) == served_at(table.download_url)
                &&& opt_view(rel.host_deployment) == opt_view(table.host_deployment)
                &&& opt_view(rel.target_subdir) == opt_view(table.target_subdir)
                &&& rel.self_update == table.self_update
            })
        }),
        r is Ok || r matches Err(ReleaseError::NoPackage { .. }) || r matches Err(
            ReleaseError::NoSingleBinary { .. },
        ),
{
    let mut i: usize = 0;
    while i < packages.len()
        invariant
            i <= packages@.len(),
            forall|j: int| 0 <= j < i ==> (#[trigger] packages@[j]).name@ != app_name@,
        ensures
            i <= packages@.len(),
            forall|j: int| 0 <= j < i ==> (#[trigger] packages@[j]).name@ != app_name@,
            i < packages@.len() ==> packages@[i as int].name@ == app_name@,
        decreases packages@.len() - i,
    {
        if str_eq(packages[i].name.as_str(), app_name) {
            break;
        }
        i = i + 1;
    }
    if i == packages.len() {
        return Err(ReleaseError::NoPackage { app_name: app_name.to_owned() });
    }
    proof {
        lemma_first_named(packages@, app_name@, i as int);
    }
    let ghost all = packages@;
    let mut packages = packages;
    let package = packages.remove(i);
    assert(package == first_named(all, app_name@));
    let Package { name, version, targets } = package;
    let bins = bins_of(&targets);
    let bin = if holds(&bins, name.as_str()) {
        name.clone()
    } else if bins.len() == 1 {
        bins[0].clone()
    } else {
        return Err(ReleaseError::NoSingleBinary { package: name, bins });
    };
    let Distribution { download_url, host_deployment, target_subdir, self_update } = table;
    let download_url = match download_url {
        Some(u) => Some(trim_end_char(u.as_str(), '/')),
        None => None,
    };
    Ok(
        Release {
            name,
            bin,
            version,
            bundle_id,
            download_url,
            host_deployment,
            target_subdir,
            self_update,
        },
    )
}

} // verus!
