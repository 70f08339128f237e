//! Publishing a release to a Gebling backend, the server of polyraiders.com.
//! It takes files at /artifacts/<product>/<version>/<file> and puts a version
//! live on /finalize once all 4 are there: the Windows installer, the Mac dmg,
//! the Linux zip and a server zip. The product is the package name.
//!
//!   backend.rs windows|mac|linux   uploads what that platform's script built
//!   backend.rs finalize            uploads the server zip, then finalizes
//!
//! A game without a server of its own ships the server zip of the release
//! that is live now, so the session manager keeps running the old one.
use vstd::prelude::*;
use crate::release::Release;
use crate::text::{str_eq, strip_trailing, trim_end_char};

verus! {

broadcast use vstd::string::group_string_axioms;

/// The curl that talks to the backend. The token stays a shell variable in
/// the string, so no log shows its value.
pub open spec fn curl() -> Seq<char> {
    "curl --fail --show-error --silent --retry 3 --retry-all-errors -H \"Authorization: Bearer $RELEASE_UPLOAD_TOKEN\""@
}

pub fn curl_prefix() -> (r: &'static str)
    ensures
        r@ == curl(),
{
    "curl --fail --show-error --silent --retry 3 --retry-all-errors -H \"Authorization: Bearer $RELEASE_UPLOAD_TOKEN\""
}

/// What one run of the backend script does.
#[derive(Debug, PartialEq, Eq)]
pub enum Step {
    Windows,
    Mac,
    Linux,
    Finalize,
}

/// Why the backend script stops.
#[derive(Debug, PartialEq, Eq)]
pub enum BackendError {
    /// The step is none of windows, mac, linux or finalize.
    UnknownStep { step: String },
    /// The backend has no file name for this kind of file.
    UnknownKind { kind: String },
}

/// The step that the first argument names.
pub fn parse_step(arg: &str) -> (r: Result<Step, BackendError>)
    ensures
        arg@ == "windows"@ <==> r == Ok::<Step, BackendError>(Step::Windows),
        arg@ == "mac"@ <==> r == Ok::<Step, BackendError>(Step::Mac),
        arg@ == "linux"@ <==> r == Ok::<Step, BackendError>(Step::Linux),
        arg@ == "finalize"@ <==> r == Ok::<Step, BackendError>(Step::Finalize),
        r matches Err(e) ==> (e matches BackendError::UnknownStep { step } && step@ == arg@),
{
    proof {
        reveal_strlit("windows");
        reveal_strlit("mac");
        reveal_strlit("linux");
        reveal_strlit("finalize");
        assert("windows"@.len() == 7);
        assert("mac"@.len() == 3);
        assert("linux"@.len() == 5);
        assert("finalize"@.len() == 8);
    }
    if str_eq(arg, "windows") {
        Ok(Step::Windows)
    } else if str_eq(arg, "mac") {
        Ok(Step::Mac)
    } else if str_eq(arg, "linux") {
        Ok(Step::Linux)
    } else if str_eq(arg, "finalize") {
        Ok(Step::Finalize)
    } else {
        Err(BackendError::UnknownStep { step: arg.to_owned() })
    }
}

/// The backend's base URL, without trailing slashes.
pub fn backend_base(url: &str) -> (r: String)
    ensures
        r@ == strip_trailing(url@, '/'),
{
    trim_end_char(url, '/')
}

/// The version as the backend names it: `v` and the release version.
pub fn backend_version(r: &Release) -> (s: String)
    ensures
        s@ == "v"@ + r.version@,
{
    let mut s = String::new();
    s.append("v");
    s.append(r.version.as_str());
    s
}

/// A file of dist/ that the platform script built, by its suffix.
pub fn dist(r: &Release, suffix: &str) -> (p: String)
    ensures
        p@ == "dist/"@ + r.name@ + "-"@ + r.version@ + "-"@ + suffix@,
{
    let mut p = String::new();
    p.append("dist/");
    let a = r.artifact(suffix);
    p.append(a.as_str());
    p
}

/// The dist/ suffix of what a platform's release script built for the
/// backend, `None` for the Linux lane, whose file is zipped first.
pub fn dist_suffix(step: &Step) -> (r: Option<&'static str>)
    ensures
        *step == Step::Windows ==> (r matches Some(s) && s@ == "windows-x64-setup.exe"@),
        *step == Step::Mac ==> (r matches Some(s) && s@ == "mac-universal.dmg"@),
        (*step == Step::Linux || *step == Step::Finalize) ==> r is None,
{
    match step {
        Step::Windows => Some("windows-x64-setup.exe"),
        Step::Mac => Some("mac-universal.dmg"),
        _ => None,
    }
}

/// The folder where the Linux binary is staged to be zipped.
pub fn linux_stage() -> (r: &'static str)
    ensures
        r@ == "target/backend-stage"@,
{
    "target/backend-stage"
}

/// The Linux binary, staged under the app's name.
pub fn linux_bin(r: &Release) -> (p: String)
    ensures
        p@ == "target/backend-stage/"@ + r.name@,
{
    let mut p = String::new();
    p.append("target/backend-stage/");
    p.append(r.name.as_str());
    p
}

/// The Linux zip of the release.
pub fn linux_zip(r: &Release, version: &str) -> (p: String)
    ensures
        p@ == "dist/"@ + r.name@ + "-linux-"@ + version@ + ".zip"@,
{
    let mut p = String::new();
    p.append("dist/");
    p.append(r.name.as_str());
    p.append("-linux-");
    p.append(version);
    p.append(".zip");
    p
}

/// Makes the staged binary executable.
pub fn chmod_command(bin: &str) -> (c: String)
    ensures
        c@ == "chmod +x "@ + bin@,
{
    let mut c = String::new();
    c.append("chmod +x ");
    c.append(bin);
    c
}

/// Zips the binary alone, without its folder.
pub fn zip_command(zip: &str, bin: &str) -> (c: String)
    ensures
        c@ == "zip -j "@ + zip@ + " "@ + bin@,
{
    let mut c = String::new();
    c.append("zip -j ");
    c.append(zip);
    c.append(" ");
    c.append(bin);
    c
}

/// Asks the backend for the live release of `product`.
pub fn latest_command(backend: &str, product: &str) -> (c: String)
    ensures
        c@ == "curl --fail --show-error --silent "@ + backend@ + "/releases/"@ + product@
            + "/latest"@,
{
    let mut c = String::new();
    c.append("curl --fail --show-error --silent ");
    c.append(backend);
    c.append("/releases/");
    c.append(product);
    c.append("/latest");
    c
}

/// Where the carried over server zip goes.
pub fn server_zip(product: &str, version: &str) -> (p: String)
    ensures
        p@ == "dist/"@ + product@ + "-server-"@ + version@ + ".zip"@,
{
    let mut p = String::new();
    p.append("dist/");
    p.append(product);
    p.append("-server-");
    p.append(version);
    p.append(".zip");
    p
}

/// Downloads the live release's server zip, at `server_url` on the backend,
/// to `path`.
pub fn server_download_command(backend: &str, server_url: &str, path: &str) -> (c: String)
    ensures
        c@ == "curl --fail --show-error --silent --retry 3 -o "@ + path@ + " "@ + backend@
            + server_url@,
{
    let mut c = String::new();
    c.append("curl --fail --show-error --silent --retry 3 -o ");
    c.append(path);
    c.append(" ");
    c.append(backend);
    c.append(server_url);
    c
}

/// The name the backend expects for a file of `kind`.
pub open spec fn backend_file_name(product: Seq<char>, version: Seq<char>, kind: Seq<char>) -> Option<
    Seq<char>,
> {
    if kind == "windows"@ {
        Some(product + "-windows-"@ + version + "-installer.exe"@)
    } else if kind == "mac"@ {
        Some(product + "-mac-"@ + version + ".dmg"@)
    } else if kind == "linux"@ {
        Some(product + "-linux-"@ + version + ".zip"@)
    } else if kind == "server"@ {
        Some(product + "-server-"@ + version + ".zip"@)
    } else {
        None
    }
}

fn named(product: &str, middle: &str, version: &str, end: &str) -> (r: String)
    ensures
        r@ == product@ + middle@ + version@ + end@,
{
    let mut r = String::new();
    r.append(product);
    r.append(middle);
    r.append(version);
    r.append(end);
    r
}

/// The name the backend expects for a file of `kind`.
pub fn backend_name(product: &str, version: &str, kind: &str) -> (r: Result<String, BackendError>)
    ensures
        r is Ok <==> backend_file_name(product@, version@, kind@) is Some,
        r matches Ok(n) ==> n@ == backend_file_name(product@, version@, kind@)->0,
        r matches Err(e) ==> (e matches BackendError::UnknownKind { kind: k } && k@ == kind@),
{
    if str_eq(kind, "windows") {
        Ok(named(product, "-windows-", version, "-installer.exe"))
    } else if str_eq(kind, "mac") {
        Ok(named(product, "-mac-", version, ".dmg"))
    } else if str_eq(kind, "linux") {
        Ok(named(product, "-linux-", version, ".zip"))
    } else if str_eq(kind, "server") {
        Ok(named(product, "-server-", version, ".zip"))
    } else {
        Err(BackendError::UnknownKind { kind: kind.to_owned() })
    }
}

/// Uploads `file` under `name` to the release's artifacts.
pub fn upload_command(backend: &str, product: &str, version: &str, file: &str, name: &str) -> (c:
    String)
    ensures
        c@ == curl() + " --upload-file "@ + file@ + " "@ + backend@ + "/artifacts/"@ + product@
            + "/"@ + version@ + "/"@ + name@,
{
    let mut c = String::new();
    c.append(curl_prefix());
    c.append(" --upload-file ");
    c.append(file);
    c.append(" ");
    c.append(backend);
    c.append("/artifacts/");
    c.append(product);
    c.append("/");
    c.append(version);
    c.append("/");
    c.append(name);
    c
}

/// Puts the version live once all four files are there.
pub fn finalize_command(backend: &str, product: &str, version: &str) -> (c: String)
    ensures
        c@ == curl() + " -X POST "@ + backend@ + "/artifacts/"@ + product@ + "/"@ + version@
            + "/finalize"@,
{
    let mut c = String::new();
    c.append(curl_prefix());
    c.append(" -X POST ");
    c.append(backend);
    c.append("/artifacts/");
    c.append(product);
    c.append("/");
    c.append(version);
    c.append("/finalize");
    c
}

} // verus!
