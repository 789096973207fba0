//! Rewrites the extensions of relative module specifiers in imports,
//! re-exports and dynamic imports.
use path_absolutize::Absolutize;
use vstd::prelude::*;

use crate::syntax::{lemma_children_view, lemma_terms_push, mk, terms, with_children, Kind, Node, Term};
use crate::text::{has_prefix, join2, owned, starts_with};

verus! {

/// The path that `path` names when taken relative to directory `cwd`, with
/// `.` and `..` components resolved.
pub uninterp spec fn absolutized(path: Seq<char>, cwd: Seq<char>) -> Seq<char>;

/// Whether the leading whole components of `path` are those of `base`.
pub uninterp spec fn path_has_base(path: Seq<char>, base: Seq<char>) -> bool;

/// Relies on path_absolutize's `Absolutize::absolutize_from`, which resolves
/// `path` against `cwd` without touching the file system, and whose unix
/// implementation always returns `Ok`. It needs an absolute `cwd`: with an
/// empty or relative one it can be left with no component and panic.
#[verifier::external_body]
fn absolutize_from(path: &str, cwd: &str) -> (r: Option<String>)
    requires
        has_prefix(cwd@, "/"@),
    ensures
        r is Some,
        r->0@ == absolutized(path@, cwd@),
{
    match std::path::Path::new(path).absolutize_from(cwd) {
        Ok(p) => Some(p.to_string_lossy().into_owned()),
        Err(_) => None,
    }
}

/// Relies on std's `Path::starts_with`, which compares whole components.
#[verifier::external_body]
fn path_starts_with(path: &str, base: &str) -> (r: bool)
    ensures
        r == path_has_base(path@, base@),
{
    std::path::Path::new(path).starts_with(base)
}

/// Settings of the extension pass: old extension to new extension, and the
/// optional directories that confine rewriting to the source tree. As in a
/// map, the keys are distinct (`keys_distinct`); a key then matches a
/// specifier's trailing extension only as a whole, and which entry applies
/// does not depend on their order (`lemma_entry_by_key`).
#[derive(Debug)]
pub struct Config {
    pub extensions: Vec<(String, String)>,
    pub source_dir: Option<String>,
    pub current_dir: Option<String>,
}

/// The value of a `Config`.
pub struct ExtSettings {
    pub extensions: Seq<(Seq<char>, Seq<char>)>,
    pub source_dir: Option<Seq<char>>,
    pub current_dir: Option<Seq<char>>,
}

pub open spec fn opt_text(o: Option<String>) -> Option<Seq<char>> {
    match o {
        Some(s) => Some(s@),
        None => None,
    }
}

/// The value of a list of extension mappings.
pub open spec fn ext_pairs(v: Seq<(String, String)>) -> Seq<(Seq<char>, Seq<char>)> {
    v.map_values(|p: (String, String)| (p.0@, p.1@))
}

impl Config {
    pub open spec fn settings(&self) -> ExtSettings {
        ExtSettings {
            extensions: ext_pairs(self.extensions@),
            source_dir: opt_text(self.source_dir),
            current_dir: opt_text(self.current_dir),
        }
    }
}

/// A specifier written relative to the importing file.
pub open spec fn is_relative(s: Seq<char>) -> bool {
    has_prefix(s, "./"@) || has_prefix(s, "../"@)
}

/// Whether rewriting `s` is allowed by the source-directory confinement:
/// always when either directory is unset; else only when the current
/// directory is absolute and `s`, resolved against it, lies within the
/// source directory.
pub open spec fn in_source_tree(c: ExtSettings, s: Seq<char>) -> bool {
    match (c.source_dir, c.current_dir) {
        (Some(src), Some(cur)) => has_prefix(cur, "/"@) && path_has_base(absolutized(s, cur), src),
        _ => true,
    }
}

/// The index of the last `c` among the first `k` characters of `s`, or -1.
pub open spec fn last_index_of(s: Seq<char>, c: char, k: int) -> int
    decreases k,
{
    if k <= 0 || k > s.len() {
        -1
    } else if s[k - 1] == c {
        k - 1
    } else {
        last_index_of(s, c, k - 1)
    }
}

/// No two entries have the same key.
pub open spec fn keys_distinct(exts: Seq<(Seq<char>, Seq<char>)>) -> bool {
    forall|i: int, j: int| 0 <= i < j < exts.len() ==> exts[i].0 != exts[j].0
}

/// The trailing extension of `s`: what follows the last dot of its last path
/// segment, where that dot does not begin the segment.
pub open spec fn extension_of(s: Seq<char>) -> Option<Seq<char>> {
    let d = last_index_of(s, '.', s.len() as int);
    let slash = last_index_of(s, '/', s.len() as int);
    if d > slash + 1 { Some(s.subrange(d + 1, s.len() as int)) } else { None }
}

/// The index of the first of the first `k` entries whose key is `key`.
pub open spec fn find_key(exts: Seq<(Seq<char>, Seq<char>)>, key: Seq<char>, k: int) -> Option<int>
    decreases k,
{
    if k <= 0 || k > exts.len() {
        None
    } else {
        match find_key(exts, key, k - 1) {
            Some(i) => Some(i),
            None => if exts[k - 1].0 == key { Some(k - 1) } else { None },
        }
    }
}

/// The entry that maps extension `e`: its key is `e` written with its dot
/// (`.js`) or, when no such key exists, without it (`js`).
pub open spec fn entry_for(exts: Seq<(Seq<char>, Seq<char>)>, e: Seq<char>) -> Option<int> {
    match find_key(exts, "."@ + e, exts.len() as int) {
        Some(i) => Some(i),
        None => find_key(exts, e, exts.len() as int),
    }
}

/// `s` with its trailing extension, when a key matches it exactly, replaced
/// by the mapped value.
pub open spec fn swap_extension(exts: Seq<(Seq<char>, Seq<char>)>, s: Seq<char>) -> Option<Seq<char>> {
    match extension_of(s) {
        None => None,
        Some(e) => match entry_for(exts, e) {
            None => None,
            Some(i) => Some(s.subrange(0, s.len() - exts[i].0.len()) + exts[i].1),
        },
    }
}

proof fn lemma_find_key_absent(exts: Seq<(Seq<char>, Seq<char>)>, key: Seq<char>, k: int)
    requires
        0 <= k <= exts.len(),
        forall|j: int| 0 <= j < k ==> exts[j].0 != key,
    ensures
        find_key(exts, key, k) is None,
    decreases k,
{
    if k > 0 {
        lemma_find_key_absent(exts, key, k - 1);
    }
}

proof fn lemma_find_key_at(exts: Seq<(Seq<char>, Seq<char>)>, key: Seq<char>, i: int)
    requires
        keys_distinct(exts),
        0 <= i < exts.len(),
        exts[i].0 == key,
    ensures
        find_key(exts, key, exts.len() as int) == Some(i),
{
    lemma_find_key_absent(exts, key, i);
    assert(find_key(exts, key, i + 1) == Some(i));
    lemma_find_key_stays(exts, key, i + 1, exts.len() as int);
}

/// With distinct keys, the entry that maps extension `e` is the one whose
/// key is `e` with its dot, or else the one whose key is `e`, wherever it
/// stands in the list: the order of the entries does not matter.
pub proof fn lemma_entry_by_key(exts: Seq<(Seq<char>, Seq<char>)>, e: Seq<char>, i: int)
    requires
        keys_distinct(exts),
        0 <= i < exts.len(),
        exts[i].0 == "."@ + e || (exts[i].0 == e && forall|j: int| 0 <= j < exts.len() ==> exts[j].0 != "."@ + e),
    ensures
        entry_for(exts, e) == Some(i),
{
    if exts[i].0 == "."@ + e {
        lemma_find_key_at(exts, "."@ + e, i);
    } else {
        lemma_find_key_absent(exts, "."@ + e, exts.len() as int);
        lemma_find_key_at(exts, e, i);
    }
}

/// The rewrite of specifier `s` once confinement has been decided: `inside`
/// says whether the source-directory confinement allows rewriting `s`.
pub open spec fn rewrite_spec(exts: Seq<(Seq<char>, Seq<char>)>, s: Seq<char>, inside: bool) -> Option<Seq<char>> {
    if !is_relative(s) || !inside {
        None
    } else {
        swap_extension(exts, s)
    }
}

/// The rewritten form of specifier `s`, if it is rewritten.
pub open spec fn replace_ext(c: ExtSettings, s: Seq<char>) -> Option<Seq<char>> {
    rewrite_spec(c.extensions, s, in_source_tree(c, s))
}

pub open spec fn rewritten(c: ExtSettings, s: Seq<char>) -> Seq<char> {
    match replace_ext(c, s) {
        Some(r) => r,
        None => s,
    }
}

/// A node whose text is a module specifier.
pub open spec fn holds_source(k: Kind) -> bool {
    k == Kind::ImportDecl || k == Kind::ExportAll || k == Kind::ExportFrom
}

/// The extension rewrite of a tree.
pub open spec fn ext(c: ExtSettings, t: Term) -> Term
    decreases t, 1int, 0int,
{
    let cs = ext_upto(c, t, t.children.len() as int);
    if holds_source(t.kind) {
        Term { kind: t.kind, text: rewritten(c, t.text), ctxt: t.ctxt, children: cs }
    } else {
        with_children(t, cs)
    }
}

pub open spec fn ext_upto(c: ExtSettings, t: Term, k: int) -> Seq<Term>
    decreases t, 0int, k,
{
    if k <= 0 || k > t.children.len() {
        Seq::empty()
    } else {
        ext_upto(c, t, k - 1).push(ext_child(c, t.kind, k - 1, ext(c, t.children[k - 1])))
    }
}

/// Child `i`, already rewritten as `x`, of a node of kind `parent`: the
/// string argument of a dynamic import is a specifier too.
pub open spec fn ext_child(c: ExtSettings, parent: Kind, i: int, x: Term) -> Term {
    if parent == Kind::DynImport && i == 0 && x.kind == Kind::Str {
        Term { kind: x.kind, text: rewritten(c, x.text), ctxt: x.ctxt, children: x.children }
    } else {
        x
    }
}

fn is_relative_exec(s: &str) -> (r: bool)
    ensures
        r == is_relative(s@),
{
    starts_with(s, "./") || starts_with(s, "../")
}

/// Whether `specifier` may be rewritten under the confinement settings.
fn in_source_tree_exec(config: &Config, specifier: &str) -> (r: bool)
    ensures
        r == in_source_tree(config.settings(), specifier@),
{
    match (&config.source_dir, &config.current_dir) {
        (Some(src), Some(cur)) => {
            if !starts_with(cur.as_str(), "/") {
                return false;
            }
            match absolutize_from(specifier, cur.as_str()) {
                Some(p) => path_starts_with(p.as_str(), src.as_str()),
                None => false,
            }
        },
        _ => true,
    }
}

fn last_index(s: &str, c: char) -> (r: Option<usize>)
    ensures
        r matches Some(i) ==> last_index_of(s@, c, s@.len() as int) == i && i < s@.len(),
        r is None ==> last_index_of(s@, c, s@.len() as int) == -1,
{
    let n = s.unicode_len();
    let mut k = n;
    while k > 0
        invariant
            k <= n,
            n == s@.len(),
            last_index_of(s@, c, n as int) == last_index_of(s@, c, k as int),
        decreases k,
    {
        if s.get_char(k - 1) == c {
            return Some(k - 1);
        }
        k -= 1;
    }
    None
}

/// The trailing extension of `s`.
fn extension(s: &str) -> (r: Option<&str>)
    ensures
        r matches Some(e) ==> extension_of(s@) == Some(e@),
        r is None ==> extension_of(s@) is None,
{
    let n = s.unicode_len();
    proof { lemma_last_index_bounds(s@, '/', n as int); }
    match last_index(s, '.') {
        None => None,
        Some(d) => {
            let after_slash = match last_index(s, '/') {
                None => 0,
                Some(i) => i + 1,
            };
            if d > after_slash {
                Some(s.substring_char(d + 1, n))
            } else {
                None
            }
        },
    }
}

fn find_key_exec(exts: &Vec<(String, String)>, key: &String) -> (r: Option<usize>)
    ensures
        r matches Some(i) ==> find_key(ext_pairs(exts@), key@, exts@.len() as int) == Some(i as int)
            && i < exts@.len() && exts@[i as int].0@ == key@,
        r is None ==> find_key(ext_pairs(exts@), key@, exts@.len() as int) is None,
{
    let ghost e = ext_pairs(exts@);
    let mut k: usize = 0;
    while k < exts.len()
        invariant
            k <= exts@.len(),
            e == ext_pairs(exts@),
            find_key(e, key@, k as int) is None,
        decreases exts@.len() - k,
    {
        if exts[k].0 == *key {
            proof {
                assert(find_key(e, key@, k + 1) == Some(k as int));
                lemma_find_key_stays(e, key@, k + 1, e.len() as int);
            }
            return Some(k);
        }
        k += 1;
    }
    None
}

proof fn lemma_find_key_stays(exts: Seq<(Seq<char>, Seq<char>)>, key: Seq<char>, j: int, k: int)
    requires
        0 < j <= k <= exts.len(),
        find_key(exts, key, j) is Some,
    ensures
        find_key(exts, key, k) == find_key(exts, key, j),
    decreases k - j,
{
    if j < k {
        lemma_find_key_stays(exts, key, j, k - 1);
    }
}

/// The rewrite of `specifier` once the confinement has been decided:
/// `inside` says whether rewriting it is allowed. A relative specifier whose
/// trailing extension a key matches exactly gets the mapped extension;
/// every other specifier gives `None`.
pub fn rewrite_specifier(specifier: &str, extensions: &Vec<(String, String)>, inside: bool) -> (r: Option<String>)
    ensures
        opt_text(r) == rewrite_spec(ext_pairs(extensions@), specifier@, inside),
{
    if !is_relative_exec(specifier) || !inside {
        return None;
    }
    let e = match extension(specifier) {
        None => return None,
        Some(e) => e,
    };
    let dotted = join2(".", e);
    let found = match find_key_exec(extensions, &dotted) {
        Some(i) => Some(i),
        None => find_key_exec(extensions, &owned(e)),
    };
    match found {
        None => None,
        Some(i) => {
            let (key, value) = &extensions[i];
            let n = specifier.unicode_len();
            let m = key.as_str().unicode_len();
            proof {
                reveal_strlit(".");
                let d = last_index_of(specifier@, '.', n as int);
                lemma_last_index_bounds(specifier@, '.', n as int);
                lemma_last_index_bounds(specifier@, '/', n as int);
                assert(0 <= d < n);
                assert(e@.len() == n - d - 1);
            }
            let stem = specifier.substring_char(0, n - m);
            Some(join2(stem, value.as_str()))
        },
    }
}

proof fn lemma_last_index_bounds(s: Seq<char>, c: char, k: int)
    requires
        0 <= k <= s.len(),
    ensures
        -1 <= last_index_of(s, c, k) < k,
    decreases k,
{
    if k > 0 {
        lemma_last_index_bounds(s, c, k - 1);
    }
}

/// The rewritten form of a relative specifier whose trailing extension is
/// mapped, where the confinement allows it, and `None` for every other
/// specifier.
pub fn replace_extension(specifier: &str, config: &Config) -> (r: Option<String>)
    ensures
        opt_text(r) == replace_ext(config.settings(), specifier@),
{
    if !is_relative_exec(specifier) {
        return None;
    }
    let inside = in_source_tree_exec(config, specifier);
    rewrite_specifier(specifier, &config.extensions, inside)
}

fn rewritten_exec(config: &Config, s: &String) -> (r: String)
    ensures
        r@ == rewritten(config.settings(), s@),
{
    match replace_extension(s.as_str(), config) {
        Some(r) => r,
        None => s.clone(),
    }
}

/// Rewrites the extensions of the relative specifiers of imports,
/// re-exports and dynamic imports in `t`.
pub fn transform_extensions(config: &Config, t: &Node) -> (r: Node)
    ensures
        r@ == ext(config.settings(), t@),
    decreases t,
{
    proof { lemma_children_view(*t); }
    let mut out: Vec<Node> = Vec::new();
    let mut i: usize = 0;
    while i < t.children.len()
        invariant
            i <= t.children.len(),
            t@.children.len() == t.children.len(),
            forall|j: int| 0 <= j < t.children.len() ==> #[trigger] t@.children[j] == t.children[j]@,
            terms(out@) == ext_upto(config.settings(), t@, i as int),
        decreases t.children.len() - i,
    {
        proof {
            broadcast use vstd::std_specs::vec::axiom_vec_index_decreases;
            assert(decreases_to!(*t => t.children));
        }
        let mut x = transform_extensions(config, &t.children[i]);
        if t.kind == Kind::DynImport && i == 0 && x.kind == Kind::Str {
            let text = rewritten_exec(config, &x.text);
            proof { lemma_children_view(x); }
            x.text = text;
            proof { lemma_children_view(x); }
        }
        proof { lemma_terms_push(out@, x); }
        out.push(x);
        i += 1;
    }
    if t.kind == Kind::ImportDecl || t.kind == Kind::ExportAll || t.kind == Kind::ExportFrom {
        let text = rewritten_exec(config, &t.text);
        return mk(t.kind, text.as_str(), t.ctxt, out);
    }
    mk(t.kind, t.text.as_str(), t.ctxt, out)
}

} // verus!
