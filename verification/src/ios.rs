//! The iOS lane: the commands that build the universal library and the Xcode
//! project, and the rewrite that applies the app's minimum iOS version to the
//! generated project.
//!
//! The generated `project.pbxproj` carries settings of the shape
//! `IPHONEOS_DEPLOYMENT_TARGET = <digits and dots>;`. Every such setting is
//! replaced, scanning left to right, as `Regex::replace_all` replaces the
//! pattern `IPHONEOS_DEPLOYMENT_TARGET = [0-9.]+;` with a `&str`, `$`
//! references of the replacement expanded; a project without one is refused.
use vstd::prelude::*;
use crate::text::{chars_of, join_strs, joined, push_char, str_views, trim, trimmed};

verus! {

broadcast use vstd::string::group_string_axioms;

/// The key that opens a deployment target setting.
pub open spec fn target_key() -> Seq<char> {
    "IPHONEOS_DEPLOYMENT_TARGET = "@
}

/// A character that may stand in a version number: a digit or a dot.
pub open spec fn is_version_char(c: char) -> bool {
    ('0' <= c && c <= '9') || c == '.'
}

/// How many version characters `s` starts with.
pub open spec fn version_run(s: Seq<char>) -> nat
    decreases s.len(),
{
    if s.len() > 0 && is_version_char(s[0]) {
        1 + version_run(s.drop_first())
    } else {
        0
    }
}

/// The length of the deployment target setting that `s` starts with, if it
/// starts with one: the key, one or more version characters, then `;`.
pub open spec fn target_at(s: Seq<char>) -> Option<nat> {
    let k = target_key().len();
    if s.len() >= k && s.take(k as int) == target_key() {
        let r = version_run(s.skip(k as int));
        if r > 0 && k + r < s.len() && s[(k + r) as int] == ';' {
            Some(k + r + 1)
        } else {
            None
        }
    } else {
        None
    }
}

/// Whether a deployment target setting starts somewhere in `s`.
pub open spec fn has_target(s: Seq<char>) -> bool {
    exists|j: int| 0 <= j <= s.len() && (#[trigger] target_at(s.skip(j))) is Some
}

/// A character of an unbraced capture group name in a replacement.
pub open spec fn is_name_char(c: char) -> bool {
    ('0' <= c && c <= '9') || ('a' <= c && c <= 'z') || ('A' <= c && c <= 'Z') || c == '_'
}

/// How many name characters `s` starts with.
pub open spec fn name_run(s: Seq<char>) -> nat
    decreases s.len(),
{
    if s.len() > 0 && is_name_char(s[0]) {
        1 + name_run(s.drop_first())
    } else {
        0
    }
}

/// Where the first `}` of `s` stands.
pub open spec fn brace_at(s: Seq<char>) -> Option<nat>
    decreases s.len(),
{
    if s.len() == 0 {
        None
    } else if s[0] == '}' {
        Some(0)
    } else {
        match brace_at(s.drop_first()) {
            Some(j) => Some(j + 1),
            None => None,
        }
    }
}

/// A group reference that reads as the number 0, the whole match: zeros,
/// with a `+` before them allowed, as `usize` parses. The pattern has no
/// other group and no named one, so every other reference is empty.
pub open spec fn names_whole_match(name: Seq<char>) -> bool {
    all_zeros(sign_dropped(name))
}

/// `name` without a leading `+`.
pub open spec fn sign_dropped(name: Seq<char>) -> Seq<char> {
    if name.len() > 0 && name[0] == '+' {
        name.drop_first()
    } else {
        name
    }
}

/// One or more zeros and nothing else.
pub open spec fn all_zeros(d: Seq<char>) -> bool {
    d.len() > 0 && forall|i: int| 0 <= i < d.len() ==> #[trigger] d[i] == '0'
}

/// What a group reference named `name` stands for, given the match `whole`.
pub open spec fn group_text(name: Seq<char>, whole: Seq<char>) -> Seq<char> {
    if names_whole_match(name) {
        whole
    } else {
        Seq::empty()
    }
}

pub proof fn lemma_brace_at(s: Seq<char>)
    ensures
        brace_at(s) matches Some(j) ==> j < s.len() && s[j as int] == '}',
        brace_at(s) matches Some(j) ==> forall|x: int| 0 <= x < j ==> s[x] != '}',
        brace_at(s) is None ==> forall|x: int| 0 <= x < s.len() ==> s[x] != '}',
    decreases s.len(),
{
    if s.len() > 0 && s[0] != '}' {
        lemma_brace_at(s.drop_first());
        assert forall|x: int| 1 <= x < s.len() implies s[x] == s.drop_first()[x - 1] by {}
    }
}

pub proof fn lemma_name_run(s: Seq<char>)
    ensures
        name_run(s) <= s.len(),
        forall|x: int| 0 <= x < name_run(s) ==> is_name_char(#[trigger] s[x]),
        name_run(s) < s.len() ==> !is_name_char(s[name_run(s) as int]),
    decreases s.len(),
{
    if s.len() > 0 && is_name_char(s[0]) {
        lemma_name_run(s.drop_first());
        assert forall|x: int| 0 <= x < name_run(s) implies is_name_char(#[trigger] s[x]) by {
            if x > 0 {
                assert(s[x] == s.drop_first()[x - 1]);
            }
        }
    }
}

/// The replacement text `rep` with its capture references filled in from
/// the match `whole`, as the regex crate's `Captures::expand` does for a
/// pattern without groups: `$$` is a `$`; `${name}` and `$name` (name
/// characters as long as they go) are the whole match when the name reads as
/// 0 and nothing otherwise; any other `$` stays as it is.
pub open spec fn expand(rep: Seq<char>, whole: Seq<char>) -> Seq<char>
    decreases rep.len(),
{
    if rep.len() == 0 {
        Seq::empty()
    } else if rep[0] != '$' {
        seq![rep[0]] + expand(rep.drop_first(), whole)
    } else if rep.len() >= 2 && rep[1] == '$' {
        seq!['$'] + expand(rep.skip(2), whole)
    } else if rep.len() >= 2 && rep[1] == '{' {
        match brace_at(rep.skip(2)) {
            Some(j) => {
                proof {
                    lemma_brace_at(rep.skip(2));
                }
                group_text(rep.subrange(2, 2 + j as int), whole) + expand(rep.skip(3 + j as int), whole)
            },
            None => seq!['$'] + expand(rep.drop_first(), whole),
        }
    } else {
        let k = name_run(rep.drop_first());
        if k == 0 {
            seq!['$'] + expand(rep.drop_first(), whole)
        } else {
            proof {
                lemma_name_run(rep.drop_first());
            }
            group_text(rep.subrange(1, 1 + k as int), whole) + expand(rep.skip(1 + k as int), whole)
        }
    }
}

/// `s` with every deployment target setting, found left to right, replaced by
/// `setting` with its capture references filled in from that setting's
/// text, what `Regex::replace_all` with a `&str` replacement gives.
pub open spec fn replaced(s: Seq<char>, setting: Seq<char>) -> Seq<char>
    decreases s.len(),
{
    if s.len() == 0 {
        Seq::empty()
    } else {
        match target_at(s) {
            Some(n) => {
                proof {
                    lemma_target_at_len(s);
                }
                expand(setting, s.take(n as int)) + replaced(s.skip(n as int), setting)
            },
            None => seq![s[0]] + replaced(s.drop_first(), setting),
        }
    }
}

/// The setting that pins the deployment target to `minimum`.
pub open spec fn target_setting(minimum: Seq<char>) -> Seq<char> {
    target_key() + minimum + ";"@
}

pub proof fn lemma_target_at_len(s: Seq<char>)
    ensures
        target_at(s) matches Some(n) ==> 0 < n <= s.len(),
{
}

fn is_version(c: char) -> (r: bool)
    ensures
        r == is_version_char(c),
{
    ('0' <= c && c <= '9') || c == '.'
}

proof fn lemma_version_run_step(t: Seq<char>, p: int)
    requires
        0 <= p < t.len(),
        is_version_char(t[p]),
        version_run(t) == p + version_run(t.skip(p)),
    ensures
        version_run(t) == p + 1 + version_run(t.skip(p + 1)),
{
    assert(t.skip(p).drop_first() =~= t.skip(p + 1));
}

/// The length of the setting that starts at `v[i..]`, as `target_at` has it.
fn target_at_index(v: &Vec<char>, i: usize, key: &Vec<char>) -> (r: Option<usize>)
    requires
        key@ == target_key(),
        i <= v.len(),
    ensures
        r matches Some(n) ==> target_at(v@.skip(i as int)) == Some(n as nat),
        r is None ==> target_at(v@.skip(i as int)) is None,
{
    let ghost s = v@.skip(i as int);
    let n = v.len();
    let k = key.len();
    if n - i < k {
        return None;
    }
    let mut j: usize = 0;
    while j < k
        invariant
            j <= k == key@.len() == target_key().len(),
            key@ == target_key(),
            i + k <= n == v@.len(),
            s == v@.skip(i as int),
            forall|x: int| 0 <= x < j ==> v@[i + x] == key@[x],
        decreases k - j,
    {
        if v[i + j] != key[j] {
            assert(s[j as int] == v@[i + j]);
            assert(s.take(k as int)[j as int] != target_key()[j as int]);
            return None;
        }
        j = j + 1;
    }
    assert(s.take(k as int) =~= target_key());
    let start = i + k;
    let ghost t = s.skip(k as int);
    assert(t =~= v@.skip(start as int));
    let mut m = start;
    assert(t.skip(0) =~= t);
    while m < n && is_version(v[m])
        invariant
            start <= m <= n == v@.len(),
            t == v@.skip(start as int),
            version_run(t) == (m - start) + version_run(t.skip(m - start)),
        decreases n - m,
    {
        proof {
            lemma_version_run_step(t, m - start);
        }
        m = m + 1;
    }
    assert(version_run(t.skip(m - start)) == 0);
    if m > start && m < n && v[m] == ';' {
        Some(m + 1 - i)
    } else {
        None
    }
}

/// Builds the universal library of the app's package.
pub fn lipo_command(app_name: &str) -> (c: String)
    ensures
        c@ == "cargo lipo -p "@ + app_name@ + " --release"@,
{
    let mut c = String::new();
    c.append("cargo lipo -p ");
    c.append(app_name);
    c.append(" --release");
    c
}

/// The universal library that a shipped build must not carry the inspect
/// server in.
pub fn universal_lib(lib_name: &str) -> (p: String)
    ensures
        p@ == "target/universal/release/"@ + lib_name@,
{
    let mut p = String::new();
    p.append("target/universal/release/");
    p.append(lib_name);
    p
}

/// Runs the project generator with the script's own arguments.
pub fn mobile_command(args: &[&str]) -> (c: String)
    ensures
        c@ == trimmed("hilen-mobile "@ + joined(str_views(args@), " "@)),
{
    let mut c = String::new();
    c.append("hilen-mobile ");
    let list = join_strs(args, " ");
    c.append(list.as_str());
    trim(c.as_str())
}

/// The generated Xcode project file.
pub fn project_file(project_name: &str) -> (p: String)
    ensures
        p@ == "mobile/iOS/"@ + project_name@ + ".xcodeproj/project.pbxproj"@,
{
    let mut p = String::new();
    p.append("mobile/iOS/");
    p.append(project_name);
    p.append(".xcodeproj/project.pbxproj");
    p
}

/// Sets the real version in the generated Info.plist, where the generator
/// bakes in 1.0.
pub fn plist_command(version: &str, project_name: &str) -> (c: String)
    ensures
        c@ == "/usr/libexec/PlistBuddy -c \"Set :CFBundleShortVersionString "@ + version@
            + "\" mobile/iOS/"@ + project_name@ + "/Info.plist"@,
{
    let mut c = String::new();
    c.append("/usr/libexec/PlistBuddy -c \"Set :CFBundleShortVersionString ");
    c.append(version);
    c.append("\" mobile/iOS/");
    c.append(project_name);
    c.append("/Info.plist");
    c
}

/// Builds the project for the simulator. An explicit destination fails with a
/// clear message when the platform is missing, where `-sdk` would fall back to
/// a Mac Catalyst destination and die at link time.
pub fn xcodebuild_command(project_name: &str) -> (c: String)
    ensures
        c@ == "xcodebuild -scheme "@ + project_name@
            + " -destination \"generic/platform=iOS Simulator\" build"@,
{
    let mut c = String::new();
    c.append("xcodebuild -scheme ");
    c.append(project_name);
    c.append(" -destination \"generic/platform=iOS Simulator\" build");
    c
}

fn is_name(c: char) -> (r: bool)
    ensures
        r == is_name_char(c),
{
    ('0' <= c && c <= '9') || ('a' <= c && c <= 'z') || ('A' <= c && c <= 'Z') || c == '_'
}

/// How many name characters `rep[start..]` starts with.
fn name_len(rep: &Vec<char>, start: usize) -> (k: usize)
    requires
        start <= rep.len(),
    ensures
        k == name_run(rep@.skip(start as int)),
        start + k <= rep.len(),
{
    let ghost t = rep@.skip(start as int);
    let mut m = start;
    assert(t.skip(0) =~= t);
    while m < rep.len() && is_name(rep[m])
        invariant
            start <= m <= rep.len(),
            t == rep@.skip(start as int),
            name_run(t) == (m - start) + name_run(t.skip(m - start)),
        decreases rep.len() - m,
    {
        assert(t.skip(m - start).drop_first() =~= t.skip(m - start + 1));
        m = m + 1;
    }
    assert(t.skip(m - start).len() == 0 || t.skip(m - start)[0] == rep@[m as int]);
    m - start
}

/// Where the first `}` of `rep[start..]` stands.
fn brace_index(rep: &Vec<char>, start: usize) -> (r: Option<usize>)
    requires
        start <= rep.len(),
    ensures
        match r {
            Some(j) => brace_at(rep@.skip(start as int)) == Some(j as nat),
            None => brace_at(rep@.skip(start as int)) is None,
        },
{
    let ghost t = rep@.skip(start as int);
    let mut m = start;
    assert(t.skip(0) =~= t);
    while m < rep.len()
        invariant
            start <= m <= rep.len(),
            t == rep@.skip(start as int),
            brace_at(t) == match brace_at(t.skip(m - start)) {
                Some(j) => Some(j + (m - start) as nat),
                None => None::<nat>,
            },
        decreases rep.len() - m,
    {
        let ghost u = t.skip(m - start);
        assert(u[0] == rep@[m as int]);
        if rep[m] == '}' {
            return Some(m - start);
        }
        assert(u.drop_first() =~= t.skip(m - start + 1));
        m = m + 1;
    }
    assert(t.skip(m - start).len() == 0);
    None
}

/// Whether `rep[a..b]` names the whole match.
fn whole_match_name(rep: &Vec<char>, a: usize, b: usize) -> (r: bool)
    requires
        a <= b <= rep.len(),
    ensures
        r == names_whole_match(rep@.subrange(a as int, b as int)),
{
    let ghost name = rep@.subrange(a as int, b as int);
    let start = if a < b && rep[a] == '+' {
        a + 1
    } else {
        a
    };
    let ghost digits = sign_dropped(name);
    assert(digits =~= rep@.subrange(start as int, b as int));
    if start == b {
        return false;
    }
    let mut m = start;
    while m < b
        invariant
            start <= m <= b <= rep.len(),
            digits =~= rep@.subrange(start as int, b as int),
            name == rep@.subrange(a as int, b as int),
            digits == sign_dropped(name),
            forall|x: int| start <= x < m ==> rep@[x] == '0',
        decreases b - m,
    {
        if rep[m] != '0' {
            assert(digits[m - start] != '0');
            return false;
        }
        m = m + 1;
    }
    assert forall|x: int| 0 <= x < digits.len() implies digits[x] == '0' by {
        assert(digits[x] == rep@[x + start]);
    }
    true
}

/// Appends `v[from..to]` to `out`.
fn append_range(out: &mut String, v: &Vec<char>, from: usize, to: usize)
    requires
        from <= to <= v.len(),
    ensures
        final(out)@ == old(out)@ + v@.subrange(from as int, to as int),
{
    let mut i = from;
    while i < to
        invariant
            from <= i <= to <= v.len(),
            out@ == old(out)@ + v@.subrange(from as int, i as int),
        decreases to - i,
    {
        push_char(out, v[i]);
        assert(v@.subrange(from as int, i + 1) =~= v@.subrange(from as int, i as int).push(v@[i as int]));
        i = i + 1;
    }
}

/// Appends `rep` with its capture references filled in from the match
/// `v[from..to]`.
fn append_expanded(out: &mut String, rep: &Vec<char>, v: &Vec<char>, from: usize, to: usize)
    requires
        from <= to <= v.len(),
    ensures
        final(out)@ == old(out)@ + expand(rep@, v@.subrange(from as int, to as int)),
{
    let ghost whole = v@.subrange(from as int, to as int);
    let n = rep.len();
    let mut i: usize = 0;
    assert(rep@.skip(0) =~= rep@);
    while i < n
        invariant
            i <= n == rep@.len(),
            from <= to <= v.len(),
            whole == v@.subrange(from as int, to as int),
            old(out)@ + expand(rep@, whole) == out@ + expand(rep@.skip(i as int), whole),
        decreases n - i,
    {
        let ghost r = rep@.skip(i as int);
        assert(r[0] == rep@[i as int]);
        if rep[i] != '$' {
            assert(r.drop_first() =~= rep@.skip(i + 1));
            push_char(out, rep[i]);
            i = i + 1;
        } else if i + 1 < n && rep[i + 1] == '$' {
            assert(r[1] == rep@[i + 1]);
            assert(r.skip(2) =~= rep@.skip(i + 2));
            push_char(out, '$');
            i = i + 2;
        } else if i + 1 < n && rep[i + 1] == '{' {
            assert(r[1] == rep@[i + 1]);
            assert(r.skip(2) =~= rep@.skip(i + 2));
            match brace_index(rep, i + 2) {
                Some(j) => {
                    proof {
                        lemma_brace_at(r.skip(2));
                    }
                    assert(r.subrange(2, 2 + j as int) =~= rep@.subrange(i + 2, i + 2 + j));
                    assert(r.skip(3 + j as int) =~= rep@.skip(i + 3 + j));
                    if whole_match_name(rep, i + 2, i + 2 + j) {
                        append_range(out, v, from, to);
                    }
                    i = i + 3 + j;
                },
                None => {
                    assert(r.drop_first() =~= rep@.skip(i + 1));
                    push_char(out, '$');
                    i = i + 1;
                },
            }
        } else {
            assert(i + 1 < n ==> r[1] == rep@[i + 1]);
            assert(r.drop_first() =~= rep@.skip(i + 1));
            let k = name_len(rep, i + 1);
            if k == 0 {
                push_char(out, '$');
                i = i + 1;
            } else {
                assert(r.subrange(1, 1 + k as int) =~= rep@.subrange(i + 1, i + 1 + k));
                assert(r.skip(1 + k as int) =~= rep@.skip(i + 1 + k));
                if whole_match_name(rep, i + 1, i + 1 + k) {
                    append_range(out, v, from, to);
                }
                i = i + 1 + k;
            }
        }
    }
    assert(rep@.skip(n as int) =~= Seq::<char>::empty());
    assert(out@ + Seq::<char>::empty() =~= out@);
}

/// Replacement text without `$` is taken as it is.
proof fn lemma_expand_plain(rep: Seq<char>, whole: Seq<char>)
    requires
        forall|i: int| 0 <= i < rep.len() ==> rep[i] != '$',
    ensures
        expand(rep, whole) == rep,
    decreases rep.len(),
{
    if rep.len() > 0 {
        let d = rep.drop_first();
        assert forall|i: int| 0 <= i < d.len() implies d[i] != '$' by {
            assert(d[i] == rep[i + 1]);
        }
        lemma_expand_plain(d, whole);
        assert(seq![rep[0]] + d =~= rep);
    }
}

/// Rewrites every deployment target setting of `project` to `minimum`.
/// `None` when the project has no such setting, so nothing would change.
pub fn set_deployment_target(project: &str, minimum: &str) -> (r: Option<String>)
    ensures
        r is None <==> !has_target(project@),
        r matches Some(t) ==> t@ == replaced(project@, target_setting(minimum@)),
{
    let ghost st = target_setting(minimum@);
    let v = chars_of(project);
    let key = chars_of("IPHONEOS_DEPLOYMENT_TARGET = ");
    let mut setting = String::new();
    setting.append("IPHONEOS_DEPLOYMENT_TARGET = ");
    setting.append(minimum);
    setting.append(";");
    assert(setting@ == st);
    let setting = chars_of(setting.as_str());
    let n = v.len();
    let mut out = String::new();
    let mut found = false;
    let mut i: usize = 0;
    assert(v@.skip(0) =~= v@);
    while i < n
        invariant
            i <= n == v@.len(),
            v@ == project@,
            key@ == target_key(),
            setting@ == st,
            replaced(v@, st) == out@ + replaced(v@.skip(i as int), st),
            found ==> has_target(v@),
            !found ==> forall|j: int| 0 <= j < i ==> (#[trigger] target_at(v@.skip(j))) is None,
        decreases n - i,
    {
        let ghost rest = v@.skip(i as int);
        match target_at_index(&v, i, &key) {
            Some(len) => {
                assert(rest.skip(len as int) =~= v@.skip(i + len));
                assert(rest.take(len as int) =~= v@.subrange(i as int, i + len));
                proof {
                    lemma_target_at_len(rest);
                }
                append_expanded(&mut out, &setting, &v, i, i + len);
                i = i + len;
                found = true;
            },
            None => {
                assert(rest.drop_first() =~= v@.skip(i + 1));
                assert(rest[0] == v@[i as int]);
                push_char(&mut out, v[i]);
                i = i + 1;
            },
        }
    }
    assert(v@.skip(n as int) =~= Seq::<char>::empty());
    assert(out@ =~= out@ + Seq::<char>::empty());
    if found {
        Some(out)
    } else {
        assert(target_at(v@.skip(n as int)) is None);
        None
    }
}


/// A version number: one or more digits and dots.
pub open spec fn is_version_text(m: Seq<char>) -> bool {
    m.len() > 0 && forall|i: int| 0 <= i < m.len() ==> is_version_char(#[trigger] m[i])
}

proof fn lemma_key_facts()
    ensures
        target_key().len() == 29,
        target_key()[0] == 'I',
        forall|i: int| 1 <= i < 29 ==> #[trigger] target_key()[i] != 'I',
        forall|i: int| 0 <= i < 29 ==> #[trigger] target_key()[i] != '$',
{
    reveal_strlit("IPHONEOS_DEPLOYMENT_TARGET = ");
    let key = target_key();
    assert(key.len() == 29);
    assert forall|i: int| 0 <= i < 29 implies (#[trigger] key[i] != '$' && (i >= 1 ==> key[i] != 'I')) by {
        if i == 0 {
            assert(key[0] == 'I');
        } else if i == 1 {
            assert(key[1] == 'P');
        } else if i == 2 {
            assert(key[2] == 'H');
        } else if i == 3 {
            assert(key[3] == 'O');
        } else if i == 4 {
            assert(key[4] == 'N');
        } else if i == 5 {
            assert(key[5] == 'E');
        } else if i == 6 {
            assert(key[6] == 'O');
        } else if i == 7 {
            assert(key[7] == 'S');
        } else if i == 8 {
            assert(key[8] == '_');
        } else if i == 9 {
            assert(key[9] == 'D');
        } else if i == 10 {
            assert(key[10] == 'E');
        } else if i == 11 {
            assert(key[11] == 'P');
        } else if i == 12 {
            assert(key[12] == 'L');
        } else if i == 13 {
            assert(key[13] == 'O');
        } else if i == 14 {
            assert(key[14] == 'Y');
        } else if i == 15 {
            assert(key[15] == 'M');
        } else if i == 16 {
            assert(key[16] == 'E');
        } else if i == 17 {
            assert(key[17] == 'N');
        } else if i == 18 {
            assert(key[18] == 'T');
        } else if i == 19 {
            assert(key[19] == '_');
        } else if i == 20 {
            assert(key[20] == 'T');
        } else if i == 21 {
            assert(key[21] == 'A');
        } else if i == 22 {
            assert(key[22] == 'R');
        } else if i == 23 {
            assert(key[23] == 'G');
        } else if i == 24 {
            assert(key[24] == 'E');
        } else if i == 25 {
            assert(key[25] == 'T');
        } else if i == 26 {
            assert(key[26] == ' ');
        } else if i == 27 {
            assert(key[27] == '=');
        } else if i == 28 {
            assert(key[28] == ' ');
        }
    }
    assert(key[0] == 'I');
}

/// A setting for a version-number minimum holds no `$`, so the regex crate
/// takes it as it is.
proof fn lemma_setting_plain(minimum: Seq<char>, whole: Seq<char>)
    requires
        is_version_text(minimum),
    ensures
        expand(target_setting(minimum), whole) == target_setting(minimum),
{
    lemma_key_facts();
    reveal_strlit(";");
    let st = target_setting(minimum);
    assert forall|i: int| 0 <= i < st.len() implies st[i] != '$' by {
        if i < 29 {
            assert(st[i] == target_key()[i]);
        } else if i < 29 + minimum.len() {
            assert(st[i] == minimum[i - 29]);
        } else {
            assert(st[i] == ';');
        }
    }
    lemma_expand_plain(st, whole);
}

proof fn lemma_version_run_facts(t: Seq<char>)
    ensures
        version_run(t) <= t.len(),
        forall|i: int| 0 <= i < version_run(t) ==> is_version_char(#[trigger] t[i]),
        version_run(t) < t.len() ==> !is_version_char(t[version_run(t) as int]),
    decreases t.len(),
{
    if t.len() > 0 && is_version_char(t[0]) {
        let u = t.drop_first();
        lemma_version_run_facts(u);
        assert forall|i: int| 0 <= i < version_run(t) implies is_version_char(#[trigger] t[i]) by {
            if i > 0 {
                assert(t[i] == u[i - 1]);
            }
        }
    }
}

proof fn lemma_version_run_exact(t: Seq<char>, r: nat)
    requires
        r <= t.len(),
        forall|i: int| 0 <= i < r ==> is_version_char(#[trigger] t[i]),
        r == t.len() || !is_version_char(t[r as int]),
    ensures
        version_run(t) == r,
    decreases r,
{
    if r > 0 {
        let u = t.drop_first();
        assert forall|i: int| 0 <= i < r - 1 implies is_version_char(#[trigger] u[i]) by {
            assert(u[i] == t[i + 1]);
        }
        lemma_version_run_exact(u, (r - 1) as nat);
    }
}

/// A setting for a version-number minimum opens with a setting of its own
/// full length, whatever follows it.
proof fn lemma_setting_matches(minimum: Seq<char>, rest: Seq<char>)
    requires
        is_version_text(minimum),
    ensures
        target_at(target_setting(minimum) + rest) == Some(target_setting(minimum).len()),
{
    reveal_strlit(";");
    let st = target_setting(minimum);
    let s = st + rest;
    let k = target_key().len();
    assert(s.take(k as int) =~= target_key());
    let t = s.skip(k as int);
    assert forall|i: int| 0 <= i < minimum.len() implies is_version_char(#[trigger] t[i]) by {
        assert(t[i] == minimum[i]);
    }
    assert(t[minimum.len() as int] == ';');
    lemma_version_run_exact(t, minimum.len());
    assert(s[(k + minimum.len()) as int] == ';');
}

/// Copying a stretch without settings leaves it as it is.
proof fn lemma_replaced_prefix(t: Seq<char>, m: int, st: Seq<char>)
    requires
        0 <= m <= t.len(),
        forall|j: int| 0 <= j < m ==> (#[trigger] target_at(t.skip(j))) is None,
    ensures
        replaced(t, st) == t.take(m) + replaced(t.skip(m), st),
    decreases m,
{
    if m == 0 {
        assert(t.skip(0) =~= t);
        assert(t.take(0) + replaced(t, st) =~= replaced(t, st));
    } else {
        assert(t.skip(0) =~= t);
        assert(target_at(t.skip(0)) is None);
        let u = t.drop_first();
        assert forall|j: int| 0 <= j < m - 1 implies (#[trigger] target_at(u.skip(j))) is None by {
            assert(u.skip(j) =~= t.skip(j + 1));
        }
        lemma_replaced_prefix(u, m - 1, st);
        assert(u.skip(m - 1) =~= t.skip(m));
        assert(seq![t[0]] + u.take(m - 1) =~= t.take(m));
    }
}

/// Where the first setting of `t` starts, or `t.len()` when none does.
pub open spec fn first_target(t: Seq<char>) -> nat
    decreases t.len(),
{
    if t.len() == 0 {
        0
    } else if target_at(t) is Some {
        0
    } else {
        1 + first_target(t.drop_first())
    }
}

proof fn lemma_first_target(t: Seq<char>)
    ensures
        first_target(t) <= t.len(),
        forall|j: int| 0 <= j < first_target(t) ==> (#[trigger] target_at(t.skip(j))) is None,
        first_target(t) < t.len() ==> target_at(t.skip(first_target(t) as int)) is Some,
    decreases t.len(),
{
    assert(t.skip(0) =~= t);
    if t.len() > 0 && target_at(t) is None {
        let u = t.drop_first();
        lemma_first_target(u);
        assert forall|j: int| 0 <= j < first_target(t) implies (#[trigger] target_at(t.skip(j))) is None by {
            if j > 0 {
                assert(t.skip(j) =~= u.skip(j - 1));
            }
        }
        assert(t.skip(first_target(t) as int) =~= u.skip(first_target(u) as int));
    }
}

/// A character copied in front of a rewritten text does not open a setting
/// when it did not open one in front of the original text.
proof fn lemma_no_new_target(s: Seq<char>, minimum: Seq<char>)
    requires
        is_version_text(minimum),
        s.len() > 0,
        target_at(s) is None,
    ensures
        target_at(seq![s[0]] + replaced(s.drop_first(), target_setting(minimum))) is None,
{
    let st = target_setting(minimum);
    let t = s.drop_first();
    let out = replaced(t, st);
    let c = seq![s[0]] + out;
    let k = target_key().len();
    lemma_key_facts();
    lemma_first_target(t);
    let q = first_target(t) as int;
    lemma_replaced_prefix(t, q, st);
    if target_at(c) is Some {
        let l = target_at(c)->0 as int;
        let r = version_run(c.skip(k as int));
        lemma_version_run_facts(c.skip(k as int));
        assert(l == k + r + 1);
        if q == t.len() {
            assert(t.skip(q) =~= Seq::<char>::empty());
            assert(t.take(q) =~= t);
            assert(out =~= t);
            assert(c =~= s);
            assert(false);
        } else if q + 1 >= l {
            assert forall|idx: int| 0 <= idx < l implies #[trigger] c[idx] == s[idx] by {
                if idx > 0 {
                    assert(c[idx] == out[idx - 1]);
                    assert(out[idx - 1] == t.take(q)[idx - 1]);
                }
            }
            assert(s.take(k as int) =~= c.take(k as int));
            let ts = s.skip(k as int);
            assert forall|i: int| 0 <= i < r implies is_version_char(#[trigger] ts[i]) by {
                assert(ts[i] == s[k + i]);
                assert(c.skip(k as int)[i] == c[k + i]);
            }
            assert(ts[r as int] == s[(k + r) as int]);
            assert(c.skip(k as int)[r as int] == c[(k + r) as int]);
            lemma_version_run_exact(ts, r);
            assert(false);
        } else {
            lemma_setting_matches(minimum, replaced(t.skip(q).skip(st.len() as int), st));
            lemma_target_at_len(t.skip(q));
            assert(replaced(t.skip(q), st)[0] == st[0]);
            assert(out[q] == 'I');
            let idx = q + 1;
            assert(c[idx] == 'I');
            if idx < k {
                assert(c.take(k as int)[idx] == c[idx]);
            } else if idx < k + r {
                assert(c.skip(k as int)[idx - k] == c[idx]);
            } else {
                assert(c[(k + r) as int] == ';');
            }
        }
    }
}

/// Rewriting the deployment target is stable: a project that has been
/// rewritten to a version-number minimum comes out of a second rewrite to
/// the same minimum unchanged.
pub proof fn lemma_rewrite_is_stable(s: Seq<char>, minimum: Seq<char>)
    requires
        is_version_text(minimum),
    ensures
        replaced(replaced(s, target_setting(minimum)), target_setting(minimum)) == replaced(
            s,
            target_setting(minimum),
        ),
    decreases s.len(),
{
    let st = target_setting(minimum);
    if s.len() > 0 {
        match target_at(s) {
            Some(n) => {
                lemma_target_at_len(s);
                let rest = replaced(s.skip(n as int), st);
                lemma_rewrite_is_stable(s.skip(n as int), minimum);
                lemma_setting_plain(minimum, s.take(n as int));
                lemma_setting_matches(minimum, rest);
                lemma_setting_plain(minimum, (st + rest).take(st.len() as int));
                assert((st + rest).skip(st.len() as int) =~= rest);
            },
            None => {
                let rest = replaced(s.drop_first(), st);
                lemma_rewrite_is_stable(s.drop_first(), minimum);
                lemma_no_new_target(s, minimum);
                assert((seq![s[0]] + rest).drop_first() =~= rest);
            },
        }
    }
}

} // verus!
