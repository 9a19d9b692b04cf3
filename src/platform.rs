//! The host platform and whether a release asset's name targets it.

use vstd::prelude::*;

use crate::error::InstallError;
use crate::text::{chars_of, contains, contains_exec};

verus! {

/// An operating system and a CPU architecture.
#[derive(Debug)]
pub struct Platform {
    pub os: String,
    pub arch: String,
}

impl Platform {
    /// `os-arch`.
    pub fn to_string(&self) -> (r: String)
        ensures
            r@ == self.os@ + seq!['-'] + self.arch@,
    {
        let mut r = String::from_str(self.os.as_str());
        r.append("-");
        r.append(self.arch.as_str());
        proof {
            reveal_strlit("-");
        }
        r
    }
}

/// An alias table: for each canonical name, the spellings it goes by.
pub type AliasTable = Vec<(String, Vec<String>)>;

/// The texts of a list of strings.
pub open spec fn texts(v: Seq<String>) -> Seq<Seq<char>> {
    v.map_values(|s: String| s@)
}

/// The spellings listed for `key`: those of its first entry.
pub open spec fn lookup(t: Seq<(String, Vec<String>)>, key: Seq<char>) -> Option<Seq<Seq<char>>>
    decreases t.len(),
{
    if t.len() == 0 {
        None
    } else if t[0].0@ == key {
        Some(texts(t[0].1@))
    } else {
        lookup(t.drop_first(), key)
    }
}

/// No key of the table is listed twice.
pub open spec fn keys_unique(t: Seq<(String, Vec<String>)>) -> bool {
    forall|i: int, j: int| 0 <= i < j < t.len() ==> t[i].0@ != t[j].0@
}

/// Alias tables for operating systems and architectures.
#[derive(Debug)]
pub struct PlatformMatcher {
    pub arch_aliases: AliasTable,
    pub os_aliases: AliasTable,
}

impl PlatformMatcher {
    pub open spec fn wf(&self) -> bool {
        keys_unique(self.arch_aliases@) && keys_unique(self.os_aliases@)
    }
}

/// A list of strings from literals.
fn strings(a: &str, b: &str, c: &str, n: usize) -> (r: Vec<String>)
    requires
        1 <= n <= 3,
    ensures
        r@.len() == n,
        r@[0]@ == a@,
        n >= 2 ==> r@[1]@ == b@,
        n >= 3 ==> r@[2]@ == c@,
{
    let mut v: Vec<String> = Vec::new();
    v.push(String::from_str(a));
    if n >= 2 {
        v.push(String::from_str(b));
    }
    if n >= 3 {
        v.push(String::from_str(c));
    }
    v
}

/// The default spellings of each architecture.
pub open spec fn default_arch_aliases(arch: Seq<char>) -> Option<Seq<Seq<char>>> {
    if arch == "aarch64"@ {
        Some(seq!["arm64"@, "aarch64"@])
    } else if arch == "x86_64"@ {
        Some(seq!["x86_64"@, "amd64"@])
    } else if arch == "arm"@ {
        Some(seq!["arm"@, "armv6"@, "armv7"@])
    } else {
        None
    }
}

/// The default spellings of each operating system.
pub open spec fn default_os_aliases(os: Seq<char>) -> Option<Seq<Seq<char>>> {
    if os == "macos"@ {
        Some(seq!["macos"@, "darwin"@, "osx"@])
    } else if os == "linux"@ {
        Some(seq!["linux"@])
    } else if os == "windows"@ {
        Some(seq!["windows"@, "win32"@, "win"@])
    } else {
        None
    }
}

impl Default for PlatformMatcher {
    /// `aarch64`: `arm64`, `aarch64`; `x86_64`: `x86_64`, `amd64`;
    /// `arm`: `arm`, `armv6`, `armv7`; `macos`: `macos`, `darwin`, `osx`;
    /// `linux`: `linux`; `windows`: `windows`, `win32`, `win`.
    fn default() -> (r: Self)
        ensures
            r.wf(),
            forall|k: Seq<char>| lookup(r.arch_aliases@, k) == default_arch_aliases(k),
            forall|k: Seq<char>| lookup(r.os_aliases@, k) == default_os_aliases(k),
    {
        proof {
            reveal_strlit("aarch64");
            reveal_strlit("x86_64");
            reveal_strlit("arm");
            reveal_strlit("macos");
            reveal_strlit("linux");
            reveal_strlit("windows");
        }
        let mut arch_aliases: AliasTable = Vec::new();
        arch_aliases.push((String::from_str("aarch64"), strings("arm64", "aarch64", "", 2)));
        arch_aliases.push((String::from_str("x86_64"), strings("x86_64", "amd64", "", 2)));
        arch_aliases.push((String::from_str("arm"), strings("arm", "armv6", "armv7", 3)));
        let mut os_aliases: AliasTable = Vec::new();
        os_aliases.push((String::from_str("macos"), strings("macos", "darwin", "osx", 3)));
        os_aliases.push((String::from_str("linux"), strings("linux", "", "", 1)));
        os_aliases.push((String::from_str("windows"), strings("windows", "win32", "win", 3)));
        let r = PlatformMatcher { arch_aliases, os_aliases };
        proof {
            let a = r.arch_aliases@;
            let o = r.os_aliases@;
            assert(a.drop_first().drop_first().drop_first().len() == 0);
            assert(o.drop_first().drop_first().drop_first().len() == 0);
            assert(texts(a[0].1@) =~= seq!["arm64"@, "aarch64"@]);
            assert(texts(a[1].1@) =~= seq!["x86_64"@, "amd64"@]);
            assert(texts(a[2].1@) =~= seq!["arm"@, "armv6"@, "armv7"@]);
            assert(texts(o[0].1@) =~= seq!["macos"@, "darwin"@, "osx"@]);
            assert(texts(o[1].1@) =~= seq!["linux"@]);
            assert(texts(o[2].1@) =~= seq!["windows"@, "win32"@, "win"@]);
            assert(a.drop_first()[0] == a[1]);
            assert(a.drop_first().drop_first()[0] == a[2]);
            assert(o.drop_first()[0] == o[1]);
            assert(o.drop_first().drop_first()[0] == o[2]);
            assert(o[0].0@[0] != o[1].0@[0]);
            assert(o[0].0@.len() != o[2].0@.len());
            assert(o[1].0@.len() != o[2].0@.len());
            assert(a[0].0@.len() != a[1].0@.len());
            assert(a[0].0@.len() != a[2].0@.len());
            assert(a[1].0@.len() != a[2].0@.len());
            reveal_with_fuel(lookup, 4);
        }
        r
    }
}

/// The spellings listed for `key` in `t`.
fn lookup_exec<'a>(t: &'a AliasTable, key: &str) -> (r: Option<&'a Vec<String>>)
    ensures
        match r {
            Some(v) => lookup(t@, key@) == Some(texts(v@)),
            None => lookup(t@, key@) is None,
        },
{
    let mut i: usize = 0;
    assert(t@.subrange(0, t@.len() as int) =~= t@);
    while i < t.len()
        invariant
            i <= t@.len(),
            lookup(t@, key@) == lookup(t@.subrange(i as int, t@.len() as int), key@),
        decreases t.len() - i,
    {
        let ghost rest = t@.subrange(i as int, t@.len() as int);
        assert(rest.drop_first() =~= t@.subrange(i + 1, t@.len() as int));
        if t[i].0.eq(&String::from_str(key)) {
            return Some(&t[i].1);
        }
        i = i + 1;
    }
    None
}

/// Upper-case-free ASCII text.
pub open spec fn is_lower_ascii(s: Seq<char>) -> bool {
    forall|i: int| 0 <= i < s.len() ==> (s[i] as u32) < 128 && !('A' <= #[trigger] s[i] && s[i] <= 'Z')
}

/// What `str::to_lowercase` returns for a text.
pub uninterp spec fn lower_of(s: Seq<char>) -> Seq<char>;

/// The lower-case form of a text; upper-case-free ASCII is its own.
pub open spec fn lowercase_of(s: Seq<char>) -> Seq<char> {
    if is_lower_ascii(s) {
        s
    } else {
        lower_of(s)
    }
}

/// Relies on `str::to_lowercase`: the result depends on the characters alone,
/// and ASCII characters other than `A`-`Z` map to themselves.
#[verifier::external_body]
fn lowercase(s: &str) -> (r: String)
    ensures
        !is_lower_ascii(s@) ==> r@ == lower_of(s@),
        is_lower_ascii(s@) ==> r@ == s@,
{
    s.to_lowercase()
}

/// Some spelling of the list occurs in `name`.
pub open spec fn any_contained(name: Seq<char>, spellings: Seq<Seq<char>>) -> bool {
    exists|i: int| 0 <= i < spellings.len() && contains(name, #[trigger] spellings[i])
}

/// Whether a lower-cased asset name targets the platform: both canonical
/// names occur; else, with aliases for both sides, a spelling of each occurs;
/// with aliases for one side only, a spelling of that side occurs.
pub open spec fn name_matches(
    name: Seq<char>,
    os: Seq<char>,
    arch: Seq<char>,
    os_aliases: Option<Seq<Seq<char>>>,
    arch_aliases: Option<Seq<Seq<char>>>,
) -> bool {
    ||| contains(name, os) && contains(name, arch)
    ||| match (os_aliases, arch_aliases) {
        (Some(o), Some(a)) => any_contained(name, o) && any_contained(name, a),
        (Some(o), None) => any_contained(name, o),
        (None, Some(a)) => any_contained(name, a),
        (None, None) => false,
    }
}

/// Whether `asset_name` targets `platform` under the tables of `matcher`.
pub open spec fn asset_matches(asset_name: Seq<char>, matcher: PlatformMatcher, platform: Platform) -> bool {
    name_matches(
        lowercase_of(asset_name),
        platform.os@,
        platform.arch@,
        lookup(matcher.os_aliases@, platform.os@),
        lookup(matcher.arch_aliases@, platform.arch@),
    )
}

/// Whether some spelling occurs in `name`.
fn any_contained_exec(name: &Vec<char>, spellings: &Vec<String>) -> (r: bool)
    ensures
        r == any_contained(name@, texts(spellings@)),
{
    let mut i: usize = 0;
    while i < spellings.len()
        invariant
            i <= spellings@.len(),
            forall|k: int| 0 <= k < i ==> !contains(name@, #[trigger] texts(spellings@)[k]),
        decreases spellings.len() - i,
    {
        let sp = chars_of(spellings[i].as_str());
        if contains_exec(name, &sp) {
            assert(contains(name@, texts(spellings@)[i as int]));
            return true;
        }
        i = i + 1;
    }
    false
}

/// Whether `asset_name` targets `platform` under the tables of `m`.
pub fn matches_with(asset_name: &str, m: &PlatformMatcher, platform: &Platform) -> (r: bool)
    ensures
        r == asset_matches(asset_name@, *m, *platform),
{
    let os_aliases = lookup_exec(&m.os_aliases, platform.os.as_str());
    let arch_aliases = lookup_exec(&m.arch_aliases, platform.arch.as_str());
    let lowered = lowercase(asset_name);
    let name = chars_of(lowered.as_str());
    let os = chars_of(platform.os.as_str());
    let arch = chars_of(platform.arch.as_str());
    if contains_exec(&name, &os) && contains_exec(&name, &arch) {
        return true;
    }
    match (os_aliases, arch_aliases) {
        (Some(o), Some(a)) => any_contained_exec(&name, o) && any_contained_exec(&name, a),
        (Some(o), None) => any_contained_exec(&name, o),
        (None, Some(a)) => any_contained_exec(&name, a),
        (None, None) => false,
    }
}

/// Whether an asset name targets the platform under the given tables, or
/// under the default ones.
pub open spec fn accepted(name: Seq<char>, matcher: Option<PlatformMatcher>, platform: Platform) -> bool {
    name_matches(
        lowercase_of(name),
        platform.os@,
        platform.arch@,
        match matcher {
            Some(m) => lookup(m.os_aliases@, platform.os@),
            None => default_os_aliases(platform.os@),
        },
        match matcher {
            Some(m) => lookup(m.arch_aliases@, platform.arch@),
            None => default_arch_aliases(platform.arch@),
        },
    )
}

/// The tables given, if any, as a value.
pub open spec fn some_matcher(m: Option<&PlatformMatcher>) -> Option<PlatformMatcher> {
    match m {
        Some(x) => Some(*x),
        None => None,
    }
}

/// `Ok` when `asset_name` targets `current_platform` under `matcher`'s tables
/// (the default tables when none are given), else `NoMatch`.
pub fn asset_matcher(
    asset_name: &str,
    matcher: Option<&PlatformMatcher>,
    current_platform: &Platform,
) -> (r: Result<(), InstallError>)
    ensures
        r is Ok <==> accepted(asset_name@, some_matcher(matcher), *current_platform),
        r matches Err(e) ==> e == InstallError::NoMatch,
{
    let ok = match matcher {
        Some(m) => matches_with(asset_name, m, current_platform),
        None => {
            let d = PlatformMatcher::default();
            matches_with(asset_name, &d, current_platform)
        },
    };
    if ok {
        Ok(())
    } else {
        Err(InstallError::NoMatch)
    }
}

} // verus!

verus! {

/// An asset named `{os}-{arch}`, alone or inside further text, matches the
/// platform `(os, arch)` under any alias tables, when the whole name is
/// canonical: ASCII without upper-case letters.
pub proof fn lemma_canonical_name_matches(
    pre: Seq<char>,
    os: Seq<char>,
    arch: Seq<char>,
    post: Seq<char>,
    os_aliases: Option<Seq<Seq<char>>>,
    arch_aliases: Option<Seq<Seq<char>>>,
)
    requires
        is_lower_ascii(pre + os + seq!['-'] + arch + post),
    ensures
        name_matches(
            lowercase_of(pre + os + seq!['-'] + arch + post),
            os,
            arch,
            os_aliases,
            arch_aliases,
        ),
{
    let name = pre + os + seq!['-'] + arch + post;
    let p = pre.len() as int;
    let q = p + os.len() + 1;
    assert(name.subrange(p, p + os.len()) =~= os);
    assert(crate::text::occurs_at(name, os, p));
    assert(name.subrange(q, q + arch.len()) =~= arch);
    assert(crate::text::occurs_at(name, arch, q));
}

} // verus!
