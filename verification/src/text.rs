//! Text helpers shared by the release modules, each stated over the
//! character sequence that a string views as.
use vstd::prelude::*;
use vstd::utf8::{decode_utf8, valid_utf8};

verus! {

broadcast use vstd::string::group_string_axioms;

/// The characters of `s`, in order.
pub fn chars_of(s: &str) -> (v: Vec<char>)
    ensures
        v@ == s@,
{
    let mut v: Vec<char> = Vec::new();
    for c in it: s.chars()
        invariant
            it.seq() == s@,
            v@ == it.seq().take(it.index()),
    {
        v.push(c);
    }
    v
}

/// Appends one character to a string (`String::push`).
#[verifier::external_body]
pub(crate) fn push_char(s: &mut String, c: char)
    ensures
        final(s)@ == old(s)@.push(c),
{
    s.push(c);
}

/// Whether two string slices hold the same text (`==` on `str`).
#[verifier::external_body]
pub(crate) fn str_eq(a: &str, b: &str) -> (r: bool)
    ensures
        r == (a@ == b@),
{
    a == b
}

/// The string made of the characters `v[from..to]`.
pub fn string_of(v: &Vec<char>, from: usize, to: usize) -> (s: String)
    requires
        from <= to <= v.len(),
    ensures
        s@ == v@.subrange(from as int, to as int),
{
    let mut s = String::new();
    let mut i = from;
    while i < to
        invariant
            from <= i <= to <= v.len(),
            s@ == v@.subrange(from as int, i as int),
        decreases to - i,
    {
        push_char(&mut s, v[i]);
        i = i + 1;
    }
    s
}

/// A character with the Unicode `White_Space` property, the set that
/// `char::is_whitespace` and `str::trim` go by.
pub open spec fn is_white(c: char) -> bool {
    let u = c as u32;
    ||| 0x09 <= u <= 0x0d
    ||| u == 0x20
    ||| u == 0x85
    ||| u == 0xa0
    ||| u == 0x1680
    ||| 0x2000 <= u <= 0x200a
    ||| u == 0x2028
    ||| u == 0x2029
    ||| u == 0x202f
    ||| u == 0x205f
    ||| u == 0x3000
}

pub fn is_whitespace(c: char) -> (r: bool)
    ensures
        r == is_white(c),
{
    let u = c as u32;
    (0x09 <= u && u <= 0x0d) || u == 0x20 || u == 0x85 || u == 0xa0 || u == 0x1680 || (0x2000
        <= u && u <= 0x200a) || u == 0x2028 || u == 0x2029 || u == 0x202f || u == 0x205f || u
        == 0x3000
}

/// `s` without its leading whitespace.
pub open spec fn trim_start(s: Seq<char>) -> Seq<char>
    decreases s.len(),
{
    if s.len() > 0 && is_white(s[0]) {
        trim_start(s.drop_first())
    } else {
        s
    }
}

/// `s` without its trailing whitespace.
pub open spec fn trim_end(s: Seq<char>) -> Seq<char>
    decreases s.len(),
{
    if s.len() > 0 && is_white(s.last()) {
        trim_end(s.drop_last())
    } else {
        s
    }
}

/// `s` without leading and trailing whitespace, what `str::trim` gives.
pub open spec fn trimmed(s: Seq<char>) -> Seq<char> {
    trim_end(trim_start(s))
}

proof fn lemma_trim_start_skip(s: Seq<char>, i: int)
    requires
        0 <= i <= s.len(),
        forall|j: int| 0 <= j < i ==> is_white(#[trigger] s[j]),
    ensures
        trim_start(s) == trim_start(s.skip(i)),
    decreases i,
{
    if i > 0 {
        assert(s.drop_first().skip(i - 1) =~= s.skip(i));
        lemma_trim_start_skip(s.drop_first(), i - 1);
    } else {
        assert(s.skip(0) =~= s);
    }
}

proof fn lemma_trim_end_take(s: Seq<char>, i: int)
    requires
        0 <= i <= s.len(),
        forall|j: int| i <= j < s.len() ==> is_white(#[trigger] s[j]),
    ensures
        trim_end(s) == trim_end(s.take(i)),
    decreases s.len() - i,
{
    if i < s.len() {
        assert(s.drop_last().take(i) =~= s.take(i));
        lemma_trim_end_take(s.drop_last(), i);
    } else {
        assert(s.take(i) =~= s);
    }
}

/// `s` with leading and trailing whitespace removed (`str::trim`).
pub fn trim(s: &str) -> (r: String)
    ensures
        r@ == trimmed(s@),
{
    let v = chars_of(s);
    let n = v.len();
    let mut start: usize = 0;
    while start < n && is_whitespace(v[start])
        invariant
            start <= n == v@.len(),
            forall|j: int| 0 <= j < start ==> is_white(#[trigger] v@[j]),
        decreases n - start,
    {
        start = start + 1;
    }
    proof {
        lemma_trim_start_skip(v@, start as int);
    }
    let mut end: usize = n;
    while end > start && is_whitespace(v[end - 1])
        invariant
            start <= end <= n == v@.len(),
            forall|j: int| end <= j < n ==> is_white(#[trigger] v@[j]),
        decreases end,
    {
        end = end - 1;
    }
    proof {
        let t = v@.skip(start as int);
        assert(start == n || !is_white(t[0]));
        assert(trim_start(t) == t);
        assert forall|j: int| end - start <= j < t.len() implies is_white(#[trigger] t[j]) by {
            assert(t[j] == v@[j + start]);
        }
        lemma_trim_end_take(t, end - start);
        let u = t.take(end - start);
        assert(u =~= v@.subrange(start as int, end as int));
        assert(end == start || !is_white(u.last()));
    }
    string_of(&v, start, end)
}

proof fn lemma_trim_start_white_prefix(front: Seq<char>, x: Seq<char>)
    requires
        forall|i: int| 0 <= i < front.len() ==> is_white(#[trigger] front[i]),
    ensures
        trim_start(front + x) == trim_start(x),
    decreases front.len(),
{
    if front.len() > 0 {
        let f = front.drop_first();
        assert((front + x)[0] == front[0]);
        assert((front + x).drop_first() =~= f + x);
        assert forall|i: int| 0 <= i < f.len() implies is_white(#[trigger] f[i]) by {
            assert(f[i] == front[i + 1]);
        }
        lemma_trim_start_white_prefix(f, x);
    } else {
        assert(front + x =~= x);
    }
}

proof fn lemma_trim_end_white_suffix(y: Seq<char>, back: Seq<char>)
    requires
        forall|i: int| 0 <= i < back.len() ==> is_white(#[trigger] back[i]),
    ensures
        trim_end(y + back) == trim_end(y),
    decreases back.len(),
{
    if back.len() > 0 {
        let b = back.drop_last();
        assert((y + back).last() == back.last());
        assert((y + back).drop_last() =~= y + b);
        assert forall|i: int| 0 <= i < b.len() implies is_white(#[trigger] b[i]) by {
            assert(b[i] == back[i]);
        }
        lemma_trim_end_white_suffix(y, b);
    } else {
        assert(y + back =~= y);
    }
}

proof fn lemma_trimmed_white_suffix(m: Seq<char>, back: Seq<char>)
    requires
        forall|i: int| 0 <= i < back.len() ==> is_white(#[trigger] back[i]),
    ensures
        trimmed(m + back) == trimmed(m),
    decreases m.len(),
{
    if m.len() == 0 {
        assert(m + back =~= back);
        lemma_trim_start_white_prefix(back, Seq::<char>::empty());
        assert(back + Seq::<char>::empty() =~= back);
    } else if is_white(m[0]) {
        assert((m + back)[0] == m[0]);
        assert((m + back).drop_first() =~= m.drop_first() + back);
        lemma_trimmed_white_suffix(m.drop_first(), back);
    } else {
        assert((m + back)[0] == m[0]);
        lemma_trim_end_white_suffix(m, back);
    }
}

/// Whitespace around a text does not survive `trim`.
pub proof fn lemma_trimmed_padding(front: Seq<char>, mid: Seq<char>, back: Seq<char>)
    requires
        forall|i: int| 0 <= i < front.len() ==> is_white(#[trigger] front[i]),
        forall|i: int| 0 <= i < back.len() ==> is_white(#[trigger] back[i]),
    ensures
        trimmed(front + mid + back) == trimmed(mid),
{
    assert(front + mid + back =~= front + (mid + back));
    lemma_trim_start_white_prefix(front, mid + back);
    lemma_trimmed_white_suffix(mid, back);
}

/// `s` with every trailing `c` removed (`str::trim_end_matches` with a char).
pub open spec fn strip_trailing(s: Seq<char>, c: char) -> Seq<char>
    decreases s.len(),
{
    if s.len() > 0 && s.last() == c {
        strip_trailing(s.drop_last(), c)
    } else {
        s
    }
}

pub fn trim_end_char(s: &str, c: char) -> (r: String)
    ensures
        r@ == strip_trailing(s@, c),
{
    let v = chars_of(s);
    let n = v.len();
    let mut end: usize = n;
    assert(v@.take(n as int) =~= v@);
    while end > 0 && v[end - 1] == c
        invariant
            end <= n == v@.len(),
            strip_trailing(v@, c) == strip_trailing(v@.take(end as int), c),
        decreases end,
    {
        assert(v@.take(end as int).drop_last() =~= v@.take(end - 1));
        end = end - 1;
    }
    string_of(&v, 0, end)
}

/// Stripping a trailing character leaves a prefix that no longer ends with
/// it, and stripping again changes nothing.
pub proof fn lemma_strip_trailing(s: Seq<char>, c: char)
    ensures
        strip_trailing(s, c).len() <= s.len(),
        strip_trailing(s, c).len() == 0 || strip_trailing(s, c).last() != c,
        strip_trailing(s, c) == s.take(strip_trailing(s, c).len() as int),
        forall|i: int| strip_trailing(s, c).len() <= i < s.len() ==> s[i] == c,
        strip_trailing(strip_trailing(s, c), c) == strip_trailing(s, c),
    decreases s.len(),
{
    if s.len() > 0 && s.last() == c {
        lemma_strip_trailing(s.drop_last(), c);
        let r = strip_trailing(s, c);
        assert(s.drop_last().take(r.len() as int) =~= s.take(r.len() as int));
        assert forall|i: int| r.len() <= i < s.len() implies s[i] == c by {
            if i < s.len() - 1 {
                assert(s[i] == s.drop_last()[i]);
            }
        }
    } else {
        assert(s.take(s.len() as int) =~= s);
    }
}

proof fn lemma_trim_start_facts(s: Seq<char>)
    ensures
        trim_start(s).len() <= s.len(),
        trim_start(s).len() == 0 || !is_white(trim_start(s)[0]),
        trim_start(s) == s.skip(s.len() - trim_start(s).len()),
    decreases s.len(),
{
    if s.len() > 0 && is_white(s[0]) {
        lemma_trim_start_facts(s.drop_first());
        let t = trim_start(s);
        assert(s.drop_first().skip(s.drop_first().len() - t.len()) =~= s.skip(s.len() - t.len()));
    } else {
        assert(s.skip(0) =~= s);
    }
}

proof fn lemma_trim_end_facts(s: Seq<char>)
    ensures
        trim_end(s).len() <= s.len(),
        trim_end(s).len() == 0 || !is_white(trim_end(s).last()),
        trim_end(s) == s.take(trim_end(s).len() as int),
        trim_end(s).len() > 0 ==> trim_end(s)[0] == s[0],
    decreases s.len(),
{
    if s.len() > 0 && is_white(s.last()) {
        lemma_trim_end_facts(s.drop_last());
        let t = trim_end(s);
        assert(s.drop_last().take(t.len() as int) =~= s.take(t.len() as int));
    } else {
        assert(s.take(s.len() as int) =~= s);
    }
}

/// Trimmed text has no whitespace at either end, so trimming it again
/// changes nothing: what `captured` hands back is already trimmed.
pub proof fn lemma_trimmed_is_stable(s: Seq<char>)
    ensures
        trimmed(s).len() == 0 || (!is_white(trimmed(s)[0]) && !is_white(trimmed(s).last())),
        trimmed(trimmed(s)) == trimmed(s),
{
    let a = trim_start(s);
    let t = trim_end(a);
    lemma_trim_start_facts(s);
    lemma_trim_end_facts(a);
    lemma_trim_end_facts(t);
    if t.len() > 0 {
        assert(t[0] == a[0]);
        assert(trim_start(t) == t);
        assert(trim_end(t) == t);
    } else {
        assert(trim_start(t) == t);
    }
}

/// `needle` stands in `hay` at `at`.
pub open spec fn occurs_at(hay: Seq<char>, needle: Seq<char>, at: int) -> bool {
    0 <= at && at + needle.len() <= hay.len() && hay.subrange(at, at + needle.len()) == needle
}

/// The whitespace that `trim` drops is exactly Unicode's `White_Space`:
/// tab, line feed, vertical tab, form feed, carriage return, space, next
/// line, no-break space, ogham space mark, the spaces from en quad to hair
/// space, line and paragraph separator, narrow no-break space, medium
/// mathematical space and ideographic space.
pub proof fn lemma_white_is_unicode_white_space(c: char)
    ensures
        is_white(c) <==> (c == '\t' || c == '\n' || c == '\u{0B}' || c == '\u{0C}' || c == '\r'
            || c == ' ' || c == '\u{85}' || c == '\u{A0}' || c == '\u{1680}' || ('\u{2000}' <= c
            && c <= '\u{200A}') || c == '\u{2028}' || c == '\u{2029}' || c == '\u{202F}' || c
            == '\u{205F}' || c == '\u{3000}'),
{
}

/// Text saved with a CRLF or LF line ending, or indented, trims to the same
/// text as without it.
pub proof fn lemma_trim_drops_line_endings(s: Seq<char>)
    ensures
        trimmed(s + "\r\n"@) == trimmed(s),
        trimmed(s + "\n"@) == trimmed(s),
        trimmed("\t"@ + s + "\r\n"@) == trimmed(s),
{
    reveal_strlit("\r\n");
    reveal_strlit("\n");
    reveal_strlit("\t");
    let e: Seq<char> = Seq::empty();
    assert(e + s + "\r\n"@ =~= s + "\r\n"@);
    assert(e + s + "\n"@ =~= s + "\n"@);
    lemma_trimmed_padding(e, s, "\r\n"@);
    lemma_trimmed_padding(e, s, "\n"@);
    lemma_trimmed_padding("\t"@, s, "\r\n"@);
}

/// `s` with each `from` replaced by `to` (`str::replace` with two chars).
pub open spec fn swap_char(s: Seq<char>, from: char, to: char) -> Seq<char> {
    s.map_values(|x: char| if x == from { to } else { x })
}

pub fn replace_char(s: &str, from: char, to: char) -> (r: String)
    ensures
        r@ == swap_char(s@, from, to),
{
    let v = chars_of(s);
    let mut r = String::new();
    for i in 0..v.len()
        invariant
            r@ == swap_char(v@.take(i as int), from, to),
    {
        let c = v[i];
        push_char(&mut r, if c == from { to } else { c });
        assert(v@.take(i + 1) =~= v@.take(i as int).push(c));
    }
    assert(v@.take(v.len() as int) =~= v@);
    r
}

/// What `str::to_uppercase` gives for `s`: the Unicode uppercase mapping of
/// each character.
pub uninterp spec fn uppercase(s: Seq<char>) -> Seq<char>;

/// `str::to_uppercase`. Its result is named, not spelled out: the Unicode
/// mapping takes tables to state.
#[verifier::external_body]
pub(crate) fn to_uppercase(s: &str) -> (r: String)
    ensures
        r@ == uppercase(s@),
{
    s.to_uppercase()
}

/// What `String::from_utf8_lossy` gives for `bytes`.
pub uninterp spec fn utf8_lossy(bytes: Seq<u8>) -> Seq<char>;

/// `String::from_utf8_lossy`, owned. The documented part is stated: valid
/// UTF-8 decodes as it is. What replaces an invalid sequence is left to the
/// name.
#[verifier::external_body]
pub(crate) fn lossy_text(bytes: &[u8]) -> (r: String)
    ensures
        r@ == utf8_lossy(bytes@),
        valid_utf8(bytes@) ==> r@ == decode_utf8(bytes@),
{
    String::from_utf8_lossy(bytes).into_owned()
}

/// The items of `list` with `sep` between each two.
pub open spec fn joined(list: Seq<Seq<char>>, sep: Seq<char>) -> Seq<char>
    decreases list.len(),
{
    if list.len() == 0 {
        Seq::empty()
    } else if list.len() == 1 {
        list[0]
    } else {
        joined(list.drop_last(), sep) + sep + list.last()
    }
}

/// The views of a list of strings.
pub open spec fn views(list: Seq<String>) -> Seq<Seq<char>> {
    list.map_values(|s: String| s@)
}

/// The views of a list of string slices.
pub open spec fn str_views(list: Seq<&str>) -> Seq<Seq<char>> {
    list.map_values(|s: &str| s@)
}

/// `list.join(sep)` over string slices.
pub fn join_strs(list: &[&str], sep: &str) -> (r: String)
    ensures
        r@ == joined(str_views(list@), sep@),
{
    let mut r = String::new();
    let ghost all = str_views(list@);
    for i in 0..list.len()
        invariant
            all == str_views(list@),
            r@ == joined(all.take(i as int), sep@),
    {
        assert(all.take(i + 1).drop_last() =~= all.take(i as int));
        if i != 0 {
            r.append(sep);
        }
        r.append(list[i]);
    }
    assert(all.take(list.len() as int) =~= all);
    r
}

/// `list.join(sep)` over strings.
pub fn join_strings(list: &Vec<String>, sep: &str) -> (r: String)
    ensures
        r@ == joined(views(list@), sep@),
{
    let mut r = String::new();
    let ghost all = views(list@);
    for i in 0..list.len()
        invariant
            all == views(list@),
            r@ == joined(all.take(i as int), sep@),
    {
        assert(all.take(i + 1).drop_last() =~= all.take(i as int));
        if i != 0 {
            r.append(sep);
        }
        r.append(list[i].as_str());
    }
    assert(all.take(list.len() as int) =~= all);
    r
}

/// The environment variable stem of an app: its name uppercased, `-` made `_`.
pub open spec fn env_stem(name: Seq<char>) -> Seq<char> {
    swap_char(uppercase(name), '-', '_')
}

/// `name` uppercased with `-` made `_`, the stem of the app's variables.
pub fn env_stem_of(name: &str) -> (r: String)
    ensures
        r@ == env_stem(name@),
        forall|i: int| 0 <= i < r@.len() ==> r@[i] != '-',
{
    let upper = to_uppercase(name);
    replace_char(upper.as_str(), '-', '_')
}

} // verus!
