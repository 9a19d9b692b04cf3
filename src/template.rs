//! Install-command templates: `{download(url, dest)}` macros, then `{key}`
//! placeholders.
//!
//! A macro is `{download(` followed by a non-empty url part up to the first
//! `,`, then a non-empty dest part up to the first `)`, then `}`. Macros are
//! found left to right without overlapping, and each is replaced by its
//! trimmed dest. The caller downloads each url to its dest before using the
//! text. Placeholders are then replaced in one left-to-right pass; unknown
//! keys stay as they are, and replaced values are not scanned again.

use vstd::prelude::*;

use crate::app::App;
use crate::error::InstallError;
use crate::platform::texts;
use crate::text::{chars_of, occurs_at, occurs_at_exec};
use crate::version::{first_from, is_space};

verus! {

/// The length of the run of whitespace that ends just before index `j`.
pub open spec fn trailing_space(s: Seq<char>, j: int) -> nat
    decreases j,
{
    if 0 < j <= s.len() && is_space(s[j - 1]) {
        1 + trailing_space(s, j - 1)
    } else {
        0
    }
}

/// `s` without leading and trailing whitespace.
pub open spec fn trim(s: Seq<char>) -> Seq<char> {
    let a = crate::version::space_run(s, 0) as int;
    if a >= s.len() {
        Seq::empty()
    } else {
        s.subrange(a, s.len() - trailing_space(s, s.len() as int))
    }
}

/// Whether `c` is whitespace.
fn is_space_exec(c: char) -> (r: bool)
    ensures
        r == is_space(c),
{
    c == ' ' || ('\t' <= c && c <= '\r') || c == '\u{85}' || c == '\u{A0}' || c == '\u{1680}'
        || ('\u{2000}' <= c && c <= '\u{200A}') || c == '\u{2028}' || c == '\u{2029}' || c
        == '\u{202F}' || c == '\u{205F}' || c == '\u{3000}'
}

/// The bounds of `t[from..to]` once trimmed.
fn trim_bounds(t: &Vec<char>, from: usize, to: usize) -> (r: (usize, usize))
    requires
        from <= to <= t@.len(),
    ensures
        from <= r.0 <= r.1 <= to,
        t@.subrange(r.0 as int, r.1 as int) == trim(t@.subrange(from as int, to as int)),
{
    let ghost s = t@.subrange(from as int, to as int);
    let mut a: usize = from;
    while a < to && is_space_exec(t[a])
        invariant
            from <= a <= to <= t@.len(),
            s == t@.subrange(from as int, to as int),
            crate::version::space_run(s, 0) == (a - from) + crate::version::space_run(s, a - from),
        decreases to - a,
    {
        assert(s[a - from] == t@[a as int]);
        a = a + 1;
    }
    if a < to {
        assert(s[a - from] == t@[a as int]);
    }
    if a == to {
        return (to, to);
    }
    let mut b: usize = to;
    while b > a && is_space_exec(t[b - 1])
        invariant
            from <= a < to <= t@.len(),
            a < b <= to,
            s == t@.subrange(from as int, to as int),
            !is_space(t@[a as int]),
            trailing_space(s, s.len() as int) == (to - b) + trailing_space(s, b - from),
        decreases b - a,
    {
        assert(s[b - 1 - from] == t@[b - 1]);
        b = b - 1;
    }
    assert(s[b - 1 - from] == t@[b - 1]);
    assert(trailing_space(s, b - from) == 0);
    assert(crate::version::space_run(s, a - from) == 0);
    assert(t@.subrange(a as int, b as int) =~= s.subrange(a - from, b - from));
    (a, b)
}

/// The text `{download(`.
pub open spec fn macro_open() -> Seq<char> {
    seq!['{', 'd', 'o', 'w', 'n', 'l', 'o', 'a', 'd', '(']
}

/// A macro starts at `i`, its url part ends at the `,` at `c`, and its dest
/// part ends at the `)` at `p`, which a `}` follows.
pub open spec fn macro_with(t: Seq<char>, i: int, c: int, p: int) -> bool {
    &&& occurs_at(t, macro_open(), i)
    &&& i + 10 < c < t.len()
    &&& t[c] == ','
    &&& forall|k: int| i + 10 <= k < c ==> t[k] != ','
    &&& c + 1 < p
    &&& p + 1 < t.len()
    &&& t[p] == ')'
    &&& forall|k: int| c < k < p ==> t[k] != ')'
    &&& t[p + 1] == '}'
}

/// A macro starts at `i`.
pub open spec fn macro_at(t: Seq<char>, i: int) -> bool {
    exists|c: int, p: int| macro_with(t, i, c, p)
}

/// The comma and parenthesis of the macro at `i`.
pub open spec fn macro_bounds(t: Seq<char>, i: int) -> (int, int) {
    choose|cp: (int, int)| macro_with(t, i, cp.0, cp.1)
}

/// Text from `i` on with each macro replaced by its trimmed dest.
pub open spec fn expand_from(t: Seq<char>, i: int) -> Seq<char>
    decreases t.len() - i,
{
    if 0 <= i < t.len() {
        if macro_at(t, i) {
            let (c, p) = macro_bounds(t, i);
            if macro_with(t, i, c, p) {
                trim(t.subrange(c + 1, p)) + expand_from(t, p + 2)
            } else {
                Seq::empty()
            }
        } else {
            seq![t[i]] + expand_from(t, i + 1)
        }
    } else {
        Seq::empty()
    }
}

/// The `(url, dest)` pairs of the macros from `i` on, in order.
pub open spec fn downloads_from(t: Seq<char>, i: int) -> Seq<(Seq<char>, Seq<char>)>
    decreases t.len() - i,
{
    if 0 <= i < t.len() {
        if macro_at(t, i) {
            let (c, p) = macro_bounds(t, i);
            if macro_with(t, i, c, p) {
                seq![(trim(t.subrange(i + 10, c)), trim(t.subrange(c + 1, p)))] + downloads_from(
                    t,
                    p + 2,
                )
            } else {
                Seq::empty()
            }
        } else {
            downloads_from(t, i + 1)
        }
    } else {
        Seq::empty()
    }
}

/// The first and only bounds of a macro.
proof fn lemma_macro_bounds(t: Seq<char>, i: int, c: int, p: int)
    requires
        macro_with(t, i, c, p),
    ensures
        macro_at(t, i),
        macro_bounds(t, i) == (c, p),
{
    let w = (c, p);
    assert(macro_with(t, i, w.0, w.1));
    let cp = macro_bounds(t, i);
    assert(macro_with(t, i, cp.0, cp.1));
    if cp.0 < c {
        assert(t[cp.0] != ',');
    } else if cp.0 > c {
        assert(t[c] != ',');
    }
    if cp.1 < p {
        assert(t[cp.1] != ')');
    } else if cp.1 > p {
        assert(t[p] != ')');
    }
}

/// The comma and parenthesis of a macro at `i`, if one starts there.
fn macro_exec(t: &Vec<char>, i: usize) -> (r: Option<(usize, usize)>)
    requires
        i < t@.len(),
    ensures
        r is Some <==> macro_at(t@, i as int),
        r matches Some((c, p)) ==> macro_with(t@, i as int, c as int, p as int),
{
    let n = t.len();
    let open: Vec<char> = vec!['{', 'd', 'o', 'w', 'n', 'l', 'o', 'a', 'd', '('];
    assert(open@ =~= macro_open());
    if !occurs_at_exec(t, &open, i) {
        return None;
    }
    let mut c: usize = i + 10;
    while c < n && t[c] != ','
        invariant
            n == t@.len(),
            i + 10 <= c <= n,
            forall|k: int| i + 10 <= k < c ==> t@[k] != ',',
        decreases n - c,
    {
        c = c + 1;
    }
    if c >= n || c == i + 10 {
        assert forall|c2: int, p2: int| !macro_with(t@, i as int, c2, p2) by {
            if macro_with(t@, i as int, c2, p2) {
                if c2 > c {
                    assert(t@[c as int] != ',');
                }
            }
        }
        return None;
    }
    let mut p: usize = c + 1;
    while p < n && t[p] != ')'
        invariant
            n == t@.len(),
            c < n,
            c + 1 <= p <= n,
            forall|k: int| c < k < p ==> t@[k] != ')',
        decreases n - p,
    {
        p = p + 1;
    }
    if p >= n || p == c + 1 || p + 1 >= n || t[p + 1] != '}' {
        assert forall|c2: int, p2: int| !macro_with(t@, i as int, c2, p2) by {
            if macro_with(t@, i as int, c2, p2) {
                if c2 < c {
                    assert(t@[c2] != ',');
                } else if c2 > c {
                    assert(t@[c as int] != ',');
                }
                if p2 > p {
                    assert(t@[p as int] != ')');
                }
            }
        }
        return None;
    }
    assert(macro_with(t@, i as int, c as int, p as int));
    Some((c, p))
}

/// A download that a template asks for.
#[derive(Debug)]
pub struct DownloadRequest {
    pub url: String,
    pub dest: String,
}

/// The views of download requests.
pub open spec fn request_views(v: Seq<DownloadRequest>) -> Seq<(Seq<char>, Seq<char>)> {
    v.map_values(|d: DownloadRequest| (d.url@, d.dest@))
}

/// The text of a template with each macro replaced by its dest, and the
/// downloads the macros ask for, in order.
pub fn expand_downloads(template: &str) -> (r: (String, Vec<DownloadRequest>))
    ensures
        r.0@ == expand_from(template@, 0),
        request_views(r.1@) == downloads_from(template@, 0),
{
    let t = chars_of(template);
    let n = t.len();
    let mut out = String::new();
    let mut reqs: Vec<DownloadRequest> = Vec::new();
    let mut plain: usize = 0;
    let mut i: usize = 0;
    while i < n
        invariant
            n == t@.len(),
            t@ == template@,
            plain <= i <= n,
            out@ + t@.subrange(plain as int, i as int) + expand_from(t@, i as int) == expand_from(
                t@,
                0,
            ),
            request_views(reqs@) + downloads_from(t@, i as int) == downloads_from(t@, 0),
        decreases n - i,
    {
        match macro_exec(&t, i) {
            Some((c, p)) => {
                proof {
                    lemma_macro_bounds(t@, i as int, c as int, p as int);
                }
                let (ua, ub) = trim_bounds(&t, i + 10, c);
                let (da, db) = trim_bounds(&t, c + 1, p);
                let ghost before = out@;
                let ghost rbefore = reqs@;
                out.append(template.substring_char(plain, i));
                out.append(template.substring_char(da, db));
                reqs.push(
                    DownloadRequest {
                        url: String::from_str(template.substring_char(ua, ub)),
                        dest: String::from_str(template.substring_char(da, db)),
                    },
                );
                proof {
                    let e = expand_from(t@, (p + 2) as int);
                    let d = trim(t@.subrange(c + 1, p as int));
                    assert(expand_from(t@, i as int) == d + e);
                    assert(out@ =~= before + t@.subrange(plain as int, i as int) + d);
                    assert(out@ + t@.subrange((p + 2) as int, (p + 2) as int) + e =~= before
                        + t@.subrange(plain as int, i as int) + (d + e));
                    assert(request_views(reqs@) =~= request_views(rbefore) + seq![
                        (trim(t@.subrange(i + 10, c as int)), d),
                    ]);
                    assert(request_views(reqs@) + downloads_from(t@, (p + 2) as int) =~= request_views(
                        rbefore,
                    ) + downloads_from(t@, i as int));
                }
                plain = p + 2;
                i = p + 2;
            },
            None => {
                proof {
                    let e = expand_from(t@, i + 1);
                    assert(expand_from(t@, i as int) == seq![t@[i as int]] + e);
                    assert(t@.subrange(plain as int, i + 1) =~= t@.subrange(plain as int, i as int)
                        + seq![t@[i as int]]);
                    assert(out@ + t@.subrange(plain as int, i + 1) + e =~= out@ + t@.subrange(
                        plain as int,
                        i as int,
                    ) + (seq![t@[i as int]] + e));
                }
                i = i + 1;
            },
        }
    }
    out.append(template.substring_char(plain, n));
    proof {
        assert(expand_from(t@, n as int) == Seq::<char>::empty());
        assert(out@ =~= expand_from(t@, 0));
        assert(request_views(reqs@) =~= downloads_from(t@, 0));
    }
    (out, reqs)
}

} // verus!

verus! {

/// A `{key}` token starts at `i`.
pub open spec fn token_at(t: Seq<char>, i: int, key: Seq<char>) -> bool {
    &&& 0 <= i
    &&& i + key.len() + 2 <= t.len()
    &&& t[i] == '{'
    &&& t.subrange(i + 1, i + 1 + key.len()) == key
    &&& t[i + 1 + key.len()] == '}'
}

pub open spec fn key_pred(t: Seq<char>, i: int, keys: Seq<Seq<char>>) -> spec_fn(int) -> bool {
    |k: int| token_at(t, i, keys[k])
}

/// Text from `i` on with each `{key}` token replaced by the value of the
/// first key that it names.
pub open spec fn subst_from(
    t: Seq<char>,
    i: int,
    keys: Seq<Seq<char>>,
    values: Seq<Seq<char>>,
) -> Seq<char>
    decreases t.len() - i,
{
    if 0 <= i < t.len() {
        match first_from(keys.len() as int, 0, key_pred(t, i, keys)) {
            Some(k) => if 0 <= k < keys.len() && i + keys[k].len() + 2 <= t.len() {
                values[k] + subst_from(t, i + keys[k].len() + 2, keys, values)
            } else {
                Seq::empty()
            },
            None => seq![t[i]] + subst_from(t, i + 1, keys, values),
        }
    } else {
        Seq::empty()
    }
}

/// The index of the first key whose token starts at `i`.
fn key_at_exec(t: &Vec<char>, i: usize, keys: &Vec<String>) -> (r: Option<usize>)
    requires
        i < t@.len(),
    ensures
        r is None <==> first_from(keys@.len() as int, 0, key_pred(t@, i as int, texts(keys@))) is None,
        r matches Some(k) ==> first_from(keys@.len() as int, 0, key_pred(t@, i as int, texts(keys@)))
            == Some(k as int) && k < keys@.len() && token_at(t@, i as int, keys@[k as int]@),
{
    let ghost ks = texts(keys@);
    let n = t.len();
    if t[i] != '{' {
        assert forall|k: int| !#[trigger] key_pred(t@, i as int, ks)(k) by {}
        proof {
            if first_from(keys@.len() as int, 0, key_pred(t@, i as int, ks)) is Some {
                crate::version::lemma_first_from_found(keys@.len() as int, 0, key_pred(t@, i as int, ks));
            }
        }
        return None;
    }
    let mut k: usize = 0;
    while k < keys.len()
        invariant
            n == t@.len(),
            i < n,
            t@[i as int] == '{',
            k <= keys@.len(),
            ks == texts(keys@),
            first_from(keys@.len() as int, 0, key_pred(t@, i as int, ks)) == first_from(
                keys@.len() as int,
                k as int,
                key_pred(t@, i as int, ks),
            ),
        decreases keys.len() - k,
    {
        let key = chars_of(keys[k].as_str());
        let kl = key.len();
        assert(ks[k as int] == key@);
        if kl < n && i < n - kl - 1 && occurs_at_exec(t, &key, i + 1) && t[i + 1 + kl] == '}' {
            assert(token_at(t@, i as int, ks[k as int]));
            assert(key_pred(t@, i as int, ks)(k as int));
            return Some(k);
        }
        assert(!key_pred(t@, i as int, ks)(k as int));
        k = k + 1;
    }
    None
}

/// `text` with each `{key}` token replaced by the value of the first key it
/// names, in one pass from left to right.
pub fn substitute(text: &str, keys: &Vec<String>, values: &Vec<String>) -> (r: String)
    requires
        keys@.len() == values@.len(),
    ensures
        r@ == subst_from(text@, 0, texts(keys@), texts(values@)),
{
    let ghost ks = texts(keys@);
    let ghost vs = texts(values@);
    let t = chars_of(text);
    let n = t.len();
    let mut out = String::new();
    let mut plain: usize = 0;
    let mut i: usize = 0;
    while i < n
        invariant
            n == t@.len(),
            t@ == text@,
            ks == texts(keys@),
            vs == texts(values@),
            keys@.len() == values@.len(),
            plain <= i <= n,
            out@ + t@.subrange(plain as int, i as int) + subst_from(t@, i as int, ks, vs) == subst_from(
                t@,
                0,
                ks,
                vs,
            ),
        decreases n - i,
    {
        match key_at_exec(&t, i, keys) {
            Some(k) => {
                let ghost before = out@;
                let kl = chars_of(keys[k].as_str()).len();
                let next = i + kl + 2;
                out.append(text.substring_char(plain, i));
                out.append(values[k].as_str());
                proof {
                    let e = subst_from(t@, next as int, ks, vs);
                    assert(subst_from(t@, i as int, ks, vs) == vs[k as int] + e);
                    assert(out@ + t@.subrange(next as int, next as int) + e =~= before
                        + t@.subrange(plain as int, i as int) + (vs[k as int] + e));
                }
                plain = next;
                i = next;
            },
            None => {
                proof {
                    let e = subst_from(t@, i + 1, ks, vs);
                    assert(subst_from(t@, i as int, ks, vs) == seq![t@[i as int]] + e);
                    assert(out@ + t@.subrange(plain as int, i + 1) + e =~= out@ + t@.subrange(
                        plain as int,
                        i as int,
                    ) + (seq![t@[i as int]] + e));
                }
                i = i + 1;
            },
        }
    }
    out.append(text.substring_char(plain, n));
    assert(out@ =~= subst_from(t@, 0, ks, vs));
    out
}

/// What templates may refer to besides the application: the host platform as
/// reported, the binaries directory, the path of the application's binary in
/// it, and the working directory.
#[derive(Debug)]
pub struct TemplateContext {
    pub raw_os: String,
    pub raw_arch: String,
    pub bin_dir: String,
    pub bin_path: String,
    pub app_path: String,
}

/// The supported platforms: normalized OS, architecture and target triple.
pub open spec fn normalized(os: Seq<char>, arch: Seq<char>) -> Option<(Seq<char>, Seq<char>, Seq<char>)> {
    if os == "linux"@ && arch == "x86_64"@ {
        Some(("linux"@, "x86_64"@, "x86_64-unknown-linux-gnu"@))
    } else if os == "linux"@ && arch == "aarch64"@ {
        Some(("linux"@, "aarch64"@, "aarch64-unknown-linux-gnu"@))
    } else if os == "macos"@ && arch == "x86_64"@ {
        Some(("darwin"@, "x86_64"@, "x86_64-apple-darwin"@))
    } else if os == "macos"@ && arch == "aarch64"@ {
        Some(("darwin"@, "aarch64"@, "aarch64-apple-darwin"@))
    } else if os == "windows"@ && arch == "x86_64"@ {
        Some(("windows"@, "x86_64"@, "x86_64-pc-windows-msvc"@))
    } else {
        None
    }
}

/// Whether two texts are equal.
fn str_eq(a: &str, b: &str) -> (r: bool)
    ensures
        r == (a@ == b@),
{
    crate::text::seq_equal(&chars_of(a), &chars_of(b))
}

/// Three strings from literals.
fn triple(a: &str, b: &str, c: &str) -> (r: (String, String, String))
    ensures
        r.0@ == a@ && r.1@ == b@ && r.2@ == c@,
{
    (String::from_str(a), String::from_str(b), String::from_str(c))
}

/// The normalized OS, architecture and target triple of a supported platform.
pub fn normalize_platform(raw_os: &str, raw_arch: &str) -> (r: Option<(String, String, String)>)
    ensures
        match normalized(raw_os@, raw_arch@) {
            Some((o, a, s)) => r matches Some((x, y, z)) && x@ == o && y@ == a && z@ == s,
            None => r is None,
        },
{
    let linux = str_eq(raw_os, "linux");
    let macos = str_eq(raw_os, "macos");
    let windows = str_eq(raw_os, "windows");
    let x86 = str_eq(raw_arch, "x86_64");
    let arm = str_eq(raw_arch, "aarch64");
    if linux && x86 {
        Some(triple("linux", "x86_64", "x86_64-unknown-linux-gnu"))
    } else if linux && arm {
        Some(triple("linux", "aarch64", "aarch64-unknown-linux-gnu"))
    } else if macos && x86 {
        Some(triple("darwin", "x86_64", "x86_64-apple-darwin"))
    } else if macos && arm {
        Some(triple("darwin", "aarch64", "aarch64-apple-darwin"))
    } else if windows && x86 {
        Some(triple("windows", "x86_64", "x86_64-pc-windows-msvc"))
    } else {
        None
    }
}

/// The keys that templates may name.
pub open spec fn template_keys() -> Seq<Seq<char>> {
    seq![
        "name"@,
        "bin"@,
        "version"@,
        "os"@,
        "arch"@,
        "raw_os"@,
        "raw_arch"@,
        "suffix"@,
        "bin_dir"@,
        "bin_path"@,
        "app_path"@,
    ]
}

/// The value of each key, in the order of `template_keys`.
pub open spec fn template_values(
    app: App,
    version: Seq<char>,
    ctx: TemplateContext,
    os: Seq<char>,
    arch: Seq<char>,
    suffix: Seq<char>,
) -> Seq<Seq<char>> {
    seq![
        app.name@,
        app.bin@,
        version,
        os,
        arch,
        ctx.raw_os@,
        ctx.raw_arch@,
        suffix,
        ctx.bin_dir@,
        ctx.bin_path@,
        ctx.app_path@,
    ]
}

/// A template's text after its macros and then its placeholders are replaced.
pub open spec fn render_spec(template: Seq<char>, values: Seq<Seq<char>>) -> Seq<char> {
    subst_from(expand_from(template, 0), 0, template_keys(), values)
}

/// A rendered template and the downloads it needs first.
#[derive(Debug)]
pub struct Rendered {
    pub text: String,
    pub downloads: Vec<DownloadRequest>,
}

/// Renders `template` for `app` at `version`: fails on an unsupported
/// platform; else replaces macros by their dests, then placeholders by their
/// values, and lists the downloads that the macros ask for.
pub fn process_template(
    template: &str,
    app: &App,
    version: &str,
    ctx: &TemplateContext,
) -> (r: Result<Rendered, InstallError>)
    ensures
        match normalized(ctx.raw_os@, ctx.raw_arch@) {
            Some((os, arch, suffix)) => r matches Ok(out) && out.text@ == render_spec(
                template@,
                template_values(*app, version@, *ctx, os, arch, suffix),
            ) && request_views(out.downloads@) == downloads_from(template@, 0),
            None => r matches Err(InstallError::UnsupportedPlatform { os, arch }) && os@
                == ctx.raw_os@ && arch@ == ctx.raw_arch@,
        },
{
    let (os, arch, suffix) = match normalize_platform(ctx.raw_os.as_str(), ctx.raw_arch.as_str()) {
        Some(n) => n,
        None => {
            return Err(
                InstallError::UnsupportedPlatform {
                    os: ctx.raw_os.clone(),
                    arch: ctx.raw_arch.clone(),
                },
            );
        },
    };
    let mut keys: Vec<String> = Vec::new();
    keys.push(String::from_str("name"));
    keys.push(String::from_str("bin"));
    keys.push(String::from_str("version"));
    keys.push(String::from_str("os"));
    keys.push(String::from_str("arch"));
    keys.push(String::from_str("raw_os"));
    keys.push(String::from_str("raw_arch"));
    keys.push(String::from_str("suffix"));
    keys.push(String::from_str("bin_dir"));
    keys.push(String::from_str("bin_path"));
    keys.push(String::from_str("app_path"));
    let mut values: Vec<String> = Vec::new();
    values.push(app.name.clone());
    values.push(app.bin.clone());
    values.push(String::from_str(version));
    values.push(os);
    values.push(arch);
    values.push(ctx.raw_os.clone());
    values.push(ctx.raw_arch.clone());
    values.push(suffix);
    values.push(ctx.bin_dir.clone());
    values.push(ctx.bin_path.clone());
    values.push(ctx.app_path.clone());
    let (expanded, downloads) = expand_downloads(template);
    let text = substitute(expanded.as_str(), &keys, &values);
    proof {
        assert(texts(keys@) =~= template_keys());
        let n = normalized(ctx.raw_os@, ctx.raw_arch@)->0;
        assert(texts(values@) =~= template_values(*app, version@, *ctx, n.0, n.1, n.2));
    }
    Ok(Rendered { text, downloads })
}

} // verus!

verus! {

proof fn lemma_expand_plain(t: Seq<char>, i: int)
    requires
        0 <= i <= t.len(),
        forall|j: int| !macro_at(t, j),
    ensures
        expand_from(t, i) == t.subrange(i, t.len() as int),
        downloads_from(t, i).len() == 0,
    decreases t.len() - i,
{
    if i < t.len() {
        lemma_expand_plain(t, i + 1);
        assert(t.subrange(i, t.len() as int) =~= seq![t[i]] + t.subrange(i + 1, t.len() as int));
    } else {
        assert(t.subrange(i, t.len() as int) =~= Seq::<char>::empty());
    }
}

proof fn lemma_subst_plain(t: Seq<char>, i: int, keys: Seq<Seq<char>>, values: Seq<Seq<char>>)
    requires
        0 <= i <= t.len(),
        forall|j: int, k: int| 0 <= k < keys.len() ==> !#[trigger] token_at(t, j, keys[k]),
    ensures
        subst_from(t, i, keys, values) == t.subrange(i, t.len() as int),
    decreases t.len() - i,
{
    if i < t.len() {
        if first_from(keys.len() as int, 0, key_pred(t, i, keys)) is Some {
            crate::version::lemma_first_from_found(keys.len() as int, 0, key_pred(t, i, keys));
            let k = first_from(keys.len() as int, 0, key_pred(t, i, keys))->0;
            assert(token_at(t, i, keys[k]));
        }
        lemma_subst_plain(t, i + 1, keys, values);
        assert(t.subrange(i, t.len() as int) =~= seq![t[i]] + t.subrange(i + 1, t.len() as int));
    } else {
        assert(t.subrange(i, t.len() as int) =~= Seq::<char>::empty());
    }
}

/// A template with no `{download(...)}` macro and no `{key}` token of a known
/// key renders to itself and asks for no download; rendering it again changes
/// nothing either.
pub proof fn lemma_static_template_unchanged(t: Seq<char>, values: Seq<Seq<char>>)
    requires
        forall|i: int| !macro_at(t, i),
        forall|i: int, k: int| 0 <= k < template_keys().len() ==> !#[trigger] token_at(t, i, template_keys()[k]),
    ensures
        render_spec(t, values) == t,
        render_spec(render_spec(t, values), values) == render_spec(t, values),
        downloads_from(t, 0).len() == 0,
{
    lemma_expand_plain(t, 0);
    assert(t.subrange(0, t.len() as int) =~= t);
    lemma_subst_plain(t, 0, template_keys(), values);
}

/// Rendering the template `{bin}` yields the application's binary name.
pub proof fn lemma_render_bin(
    app: App,
    version: Seq<char>,
    ctx: TemplateContext,
    os: Seq<char>,
    arch: Seq<char>,
    suffix: Seq<char>,
)
    ensures
        render_spec(seq!['{', 'b', 'i', 'n', '}'], template_values(app, version, ctx, os, arch, suffix))
            == app.bin@,
{
    let t = seq!['{', 'b', 'i', 'n', '}'];
    let values = template_values(app, version, ctx, os, arch, suffix);
    let keys = template_keys();
    reveal_strlit("name");
    reveal_strlit("bin");
    assert forall|j: int| !macro_at(t, j) by {
        if macro_at(t, j) {
            let w = macro_bounds(t, j);
            assert(macro_with(t, j, w.0, w.1));
        }
    }
    lemma_expand_plain(t, 0);
    assert(t.subrange(0, 5) =~= t);
    assert(keys[1] == "bin"@);
    assert(t.subrange(1, 4) =~= keys[1]);
    assert(key_pred(t, 0, keys)(1));
    assert(!key_pred(t, 0, keys)(0));
    crate::version::lemma_first_from_exact(keys.len() as int, 1, key_pred(t, 0, keys));
    assert(subst_from(t, 5, keys, values) == Seq::<char>::empty());
    assert(values[1] + Seq::<char>::empty() =~= app.bin@);
}

} // verus!
