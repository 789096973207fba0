//! Rewrites TypeScript extensions of relative specifiers to the extensions of
//! the emitted JavaScript.
use vstd::prelude::*;

use crate::syntax::{lemma_children_view, lemma_terms_push, mk, terms, with_children, Kind, Node, Term};
use crate::text::{ends_with, has_prefix, has_suffix, join2, starts_with};

verus! {

/// Settings of the pass: whether `.mts` and `.cts` keep their module kind
/// (`.mjs`, `.cjs`) instead of becoming `.js`.
#[derive(Debug, Clone, Copy)]
pub struct Config {
    pub preserve_import_extension: bool,
}

impl Config {
    pub fn new() -> (r: Config)
        ensures
            !r.preserve_import_extension,
    {
        Config { preserve_import_extension: false }
    }
}

/// The TypeScript extensions and the JavaScript extensions they compile to.
pub open spec fn ts_extensions() -> Seq<(Seq<char>, Seq<char>)> {
    seq![(".ts"@, ".js"@), (".tsx"@, ".js"@), (".mts"@, ".mjs"@), (".cts"@, ".cjs"@)]
}

/// The first of the first `k` TypeScript extensions that ends `s` (and is
/// not a declaration file's `.d` extension), swapped for its output.
pub open spec fn ts_swap(preserve: bool, s: Seq<char>, k: int) -> Option<Seq<char>>
    decreases k,
{
    if k <= 0 || k > 4 {
        None
    } else {
        match ts_swap(preserve, s, k - 1) {
            Some(r) => Some(r),
            None => {
                let (ts, js) = ts_extensions()[k - 1];
                if has_suffix(s, ts) && !has_suffix(s, ".d"@ + ts) {
                    Some(s.subrange(0, s.len() - ts.len()) + if preserve { js } else { ".js"@ })
                } else {
                    None
                }
            },
        }
    }
}

/// The rewritten form of specifier `s`, if it is rewritten: only specifiers
/// that start with a dot are.
pub open spec fn replace_ts(preserve: bool, s: Seq<char>) -> Option<Seq<char>> {
    if !has_prefix(s, "."@) { None } else { ts_swap(preserve, s, 4) }
}

pub open spec fn ts_rewritten(preserve: bool, s: Seq<char>) -> Seq<char> {
    match replace_ts(preserve, s) {
        Some(r) => r,
        None => s,
    }
}

/// The rewrite of a tree.
pub open spec fn ts2js(preserve: bool, t: Term) -> Term
    decreases t, 1int, 0int,
{
    let cs = ts2js_upto(preserve, t, t.children.len() as int);
    if t.kind == Kind::ImportDecl || t.kind == Kind::ExportAll || t.kind == Kind::ExportFrom {
        Term { kind: t.kind, text: ts_rewritten(preserve, t.text), ctxt: t.ctxt, children: cs }
    } else {
        with_children(t, cs)
    }
}

pub open spec fn ts2js_upto(preserve: bool, t: Term, k: int) -> Seq<Term>
    decreases t, 0int, k,
{
    if k <= 0 || k > t.children.len() {
        Seq::empty()
    } else {
        let x = ts2js(preserve, t.children[k - 1]);
        ts2js_upto(preserve, t, k - 1).push(
            if t.kind == Kind::DynImport && k == 1 && x.kind == Kind::Str {
                Term { kind: x.kind, text: ts_rewritten(preserve, x.text), ctxt: x.ctxt, children: x.children }
            } else {
                x
            },
        )
    }
}

fn ts_extension(i: usize) -> (r: (&'static str, &'static str))
    requires
        i < 4,
    ensures
        (r.0@, r.1@) == ts_extensions()[i as int],
{
    if i == 0 {
        (".ts", ".js")
    } else if i == 1 {
        (".tsx", ".js")
    } else if i == 2 {
        (".mts", ".mjs")
    } else {
        (".cts", ".cjs")
    }
}

proof fn lemma_ts_swap_stays(preserve: bool, s: Seq<char>, j: int, k: int)
    requires
        0 < j <= k <= 4,
        ts_swap(preserve, s, j) is Some,
    ensures
        ts_swap(preserve, s, k) == ts_swap(preserve, s, j),
    decreases k - j,
{
    if j < k {
        lemma_ts_swap_stays(preserve, s, j, k - 1);
    }
}

/// The JavaScript form of a relative specifier with a TypeScript extension,
/// and `None` for every other specifier.
pub fn replace_ts_extension(specifier: &str, config: &Config) -> (r: Option<String>)
    ensures
        r matches Some(x) ==> replace_ts(config.preserve_import_extension, specifier@) == Some(x@),
        r is None ==> replace_ts(config.preserve_import_extension, specifier@) is None,
{
    if !starts_with(specifier, ".") {
        return None;
    }
    let preserve = config.preserve_import_extension;
    let mut k: usize = 0;
    while k < 4
        invariant
            k <= 4,
            has_prefix(specifier@, "."@),
            preserve == config.preserve_import_extension,
            ts_swap(preserve, specifier@, k as int) is None,
        decreases 4 - k,
    {
        let (ts, js) = ts_extension(k);
        if ends_with(specifier, ts) && !ends_with(specifier, join2(".d", ts).as_str()) {
            let n = specifier.unicode_len();
            let m = ts.unicode_len();
            let stem = specifier.substring_char(0, n - m);
            let r = if preserve { join2(stem, js) } else { join2(stem, ".js") };
            proof {
                assert(ts_swap(preserve, specifier@, k + 1) == Some(r@));
                lemma_ts_swap_stays(preserve, specifier@, k + 1, 4);
            }
            return Some(r);
        }
        k += 1;
    }
    None
}

fn ts_rewritten_exec(config: &Config, s: &String) -> (r: String)
    ensures
        r@ == ts_rewritten(config.preserve_import_extension, s@),
{
    match replace_ts_extension(s.as_str(), config) {
        Some(r) => r,
        None => s.clone(),
    }
}

/// Rewrites the TypeScript extensions of the relative specifiers of imports,
/// re-exports and dynamic imports in `t`.
pub fn transform_ts2js(config: &Config, t: &Node) -> (r: Node)
    ensures
        r@ == ts2js(config.preserve_import_extension, t@),
    decreases t,
{
    proof { lemma_children_view(*t); }
    let mut out: Vec<Node> = Vec::new();
    let mut i: usize = 0;
    while i < t.children.len()
        invariant
            i <= t.children.len(),
            t@.children.len() == t.children.len(),
            forall|j: int| 0 <= j < t.children.len() ==> #[trigger] t@.children[j] == t.children[j]@,
            terms(out@) == ts2js_upto(config.preserve_import_extension, t@, i as int),
        decreases t.children.len() - i,
    {
        proof {
            broadcast use vstd::std_specs::vec::axiom_vec_index_decreases;
            assert(decreases_to!(*t => t.children));
        }
        let mut x = transform_ts2js(config, &t.children[i]);
        if t.kind == Kind::DynImport && i == 0 && x.kind == Kind::Str {
            let text = ts_rewritten_exec(config, &x.text);
            proof { lemma_children_view(x); }
            x.text = text;
            proof { lemma_children_view(x); }
        }
        proof { lemma_terms_push(out@, x); }
        out.push(x);
        i += 1;
    }
    if t.kind == Kind::ImportDecl || t.kind == Kind::ExportAll || t.kind == Kind::ExportFrom {
        let text = ts_rewritten_exec(config, &t.text);
        return mk(t.kind, text.as_str(), t.ctxt, out);
    }
    mk(t.kind, t.text.as_str(), t.ctxt, out)
}

} // verus!
