//! Module-format shims: lowers `__dirname`, `__filename`, `require` and
//! `import.meta.*` to the idioms of the target format.
use vstd::prelude::*;

use crate::syntax::{
    branch, collect_idents, copy_tree, idents, leaf, lemma_children_view, lemma_terms_push, mk, terms, with_children,
    Kind, Node, Term, TOP_LEVEL, UNRESOLVED,
};
use crate::hygiene::{hygiene, hygiene_module};
use crate::resolver::{resolve_module, resolve_module_tree};
use crate::text::{contains_text, eq_str, fresh, fresh_name, owned, texts};

verus! {

/// The module format that the output is for.
#[allow(non_camel_case_types)]
#[derive(PartialEq, Eq, Structural, Clone, Copy, Debug)]
pub enum Target {
    UNKNOWN,
    ESM,
    CJS,
}

/// Settings of the shims pass.
#[derive(Clone, Copy, Debug)]
pub struct Config {
    pub legacy: bool,
    pub target: Target,
}

impl Config {
    /// The default settings: no target, not legacy.
    pub fn new() -> (r: Config)
        ensures
            r.target == Target::UNKNOWN,
            !r.legacy,
    {
        Config { legacy: false, target: Target::UNKNOWN }
    }
}

// ---------------------------------------------------------------------------
// ESM target
// ---------------------------------------------------------------------------

/// What the ESM rewrite needs to know: the synthesized `require` name, the
/// local name of the URL-to-path helper, the mode and the unresolved token.
pub struct EsmPlan {
    pub require: Seq<char>,
    pub url_helper: Seq<char>,
    pub legacy: bool,
    pub unresolved: u64,
}

pub open spec fn meta_term() -> Term {
    leaf(Kind::MetaProp, "import.meta"@, 0)
}

/// `import.meta.<p>`.
pub open spec fn meta_member(p: Seq<char>) -> Term {
    branch(Kind::Member, p, seq![meta_term()])
}

/// `<helper>(new URL('.', import.meta.url))`.
pub open spec fn legacy_dirname(helper: Seq<char>, unresolved: u64) -> Term {
    branch(
        Kind::Call,
        Seq::empty(),
        seq![
            leaf(Kind::Ident, helper, TOP_LEVEL),
            branch(
                Kind::New,
                Seq::empty(),
                seq![leaf(Kind::Ident, "URL"@, unresolved), leaf(Kind::Str, "."@, 0), meta_member("url"@)],
            ),
        ],
    )
}

/// `<helper>(import.meta.url)`.
pub open spec fn legacy_filename(helper: Seq<char>) -> Term {
    branch(Kind::Call, Seq::empty(), seq![leaf(Kind::Ident, helper, TOP_LEVEL), meta_member("url"@)])
}

/// An unshadowed `__dirname` or `__filename`.
pub open spec fn is_free_dir(t: Term, unresolved: u64) -> bool {
    t.kind == Kind::Ident && t.ctxt == unresolved && (t.text == "__dirname"@ || t.text == "__filename"@)
}

/// The ESM replacement of one identifier.
pub open spec fn esm_ident(p: EsmPlan, t: Term) -> Term {
    if t.text == "require"@ {
        leaf(Kind::Ident, p.require, TOP_LEVEL)
    } else if t.ctxt == p.unresolved && t.text == "__dirname"@ {
        if p.legacy { legacy_dirname(p.url_helper, p.unresolved) } else { meta_member("dirname"@) }
    } else if t.ctxt == p.unresolved && t.text == "__filename"@ {
        if p.legacy { legacy_filename(p.url_helper) } else { meta_member("filename"@) }
    } else {
        t
    }
}

/// The ESM rewrite of a tree.
pub open spec fn esm(p: EsmPlan, t: Term) -> Term
    decreases t, 1int, 0int,
{
    if t.kind == Kind::Ident {
        esm_ident(p, t)
    } else {
        with_children(t, esm_upto(p, t, t.children.len() as int))
    }
}

pub open spec fn esm_upto(p: EsmPlan, t: Term, k: int) -> Seq<Term>
    decreases t, 0int, k,
{
    if k <= 0 || k > t.children.len() {
        Seq::empty()
    } else {
        esm_upto(p, t, k - 1).push(esm(p, t.children[k - 1]))
    }
}

/// Whether `t` holds an unshadowed `__dirname` or `__filename`.
pub open spec fn uses_free_dir(t: Term, unresolved: u64) -> bool
    decreases t, 1int, 0int,
{
    if t.kind == Kind::Ident {
        is_free_dir(t, unresolved)
    } else {
        uses_free_dir_upto(t, unresolved, t.children.len() as int)
    }
}

pub open spec fn uses_free_dir_upto(t: Term, unresolved: u64, k: int) -> bool
    decreases t, 0int, k,
{
    if k <= 0 || k > t.children.len() {
        false
    } else {
        uses_free_dir_upto(t, unresolved, k - 1) || uses_free_dir(t.children[k - 1], unresolved)
    }
}

/// The name under which an import specifier brings its binding in.
pub open spec fn imported_name(spec: Term) -> Seq<char> {
    if spec.text.len() == 0 && spec.children.len() > 0 { spec.children[0].text } else { spec.text }
}

/// A named import of `name` whose local binding is an identifier.
pub open spec fn imports_name(spec: Term, name: Seq<char>) -> bool {
    spec.kind == Kind::ImportNamed && spec.children.len() > 0 && spec.children[0].kind == Kind::Ident
        && imported_name(spec) == name
}

/// The local name of the first named import of `name` among the first `k`
/// specifiers of the import declaration `decl`.
pub open spec fn local_in_decl(decl: Term, name: Seq<char>, k: int) -> Option<Seq<char>>
    decreases k,
{
    if k <= 0 || k > decl.children.len() {
        None
    } else {
        match local_in_decl(decl, name, k - 1) {
            Some(l) => Some(l),
            None => if imports_name(decl.children[k - 1], name) {
                Some(decl.children[k - 1].children[0].text)
            } else {
                None
            },
        }
    }
}

/// The local name of the first import of `name` from `source` among the
/// first `k` items of module `m`.
pub open spec fn local_in_items(m: Term, source: Seq<char>, name: Seq<char>, k: int) -> Option<Seq<char>>
    decreases k,
{
    if k <= 0 || k > m.children.len() {
        None
    } else {
        match local_in_items(m, source, name, k - 1) {
            Some(l) => Some(l),
            None => {
                let item = m.children[k - 1];
                if item.kind == Kind::ImportDecl && item.text == source {
                    local_in_decl(item, name, item.children.len() as int)
                } else {
                    None
                }
            },
        }
    }
}

/// The local name under which module `m` already imports `name` from `source`.
pub open spec fn existing_import(m: Term, source: Seq<char>, name: Seq<char>) -> Option<Seq<char>> {
    local_in_items(m, source, name, m.children.len() as int)
}

/// `import { <imported> as <local> } from "<source>"`.
pub open spec fn import_term(source: Seq<char>, imported: Seq<char>, local: Seq<char>) -> Term {
    branch(
        Kind::ImportDecl,
        source,
        seq![branch(Kind::ImportNamed, imported, seq![leaf(Kind::Ident, local, TOP_LEVEL)])],
    )
}

/// `const <req> = <create>(import.meta.url)`.
pub open spec fn require_const(req: Seq<char>, create: Seq<char>) -> Term {
    branch(
        Kind::VarDecl,
        "const"@,
        seq![
            branch(
                Kind::Declarator,
                Seq::empty(),
                seq![
                    leaf(Kind::Ident, req, TOP_LEVEL),
                    branch(Kind::Call, Seq::empty(), seq![leaf(Kind::Ident, create, TOP_LEVEL), meta_member("url"@)]),
                ],
            ),
        ],
    )
}

/// The local name of the URL-to-path helper that the legacy rewrite calls.
pub open spec fn url_helper_of(m: Term) -> Seq<char> {
    match existing_import(m, "node:url"@, "fileURLToPath"@) {
        Some(l) => l,
        None => fresh("fileURLToPath"@, idents(m)),
    }
}

/// The local name of the `createRequire` helper.
pub open spec fn create_require_of(m: Term) -> Seq<char> {
    match existing_import(m, "node:module"@, "createRequire"@) {
        Some(l) => l,
        None => fresh("_createRequire"@, idents(m)),
    }
}

pub open spec fn esm_plan(m: Term, legacy: bool, unresolved: u64) -> EsmPlan {
    EsmPlan { require: fresh("__require"@, idents(m)), url_helper: url_helper_of(m), legacy, unresolved }
}

/// The items put before the rewritten body of module `m` for the URL helper.
pub open spec fn url_prelude(m: Term, legacy: bool, unresolved: u64) -> Seq<Term> {
    if legacy && uses_free_dir_upto(m, unresolved, m.children.len() as int) && existing_import(m, "node:url"@, "fileURLToPath"@) is None {
        seq![import_term("node:url"@, "fileURLToPath"@, url_helper_of(m))]
    } else {
        Seq::empty()
    }
}

/// The items put before the rewritten body of module `m` for `require`.
pub open spec fn require_prelude(m: Term) -> Seq<Term> {
    if idents(m).contains("require"@) {
        let create = create_require_of(m);
        let import = if existing_import(m, "node:module"@, "createRequire"@) is None {
            seq![import_term("node:module"@, "createRequire"@, create)]
        } else {
            Seq::empty()
        };
        import + seq![require_const(fresh("__require"@, idents(m)), create)]
    } else {
        Seq::empty()
    }
}

/// The ESM shims of module `m`.
pub open spec fn shims_esm(m: Term, legacy: bool, unresolved: u64) -> Term {
    let body = esm_upto(esm_plan(m, legacy, unresolved), m, m.children.len() as int);
    with_children(m, require_prelude(m) + url_prelude(m, legacy, unresolved) + body)
}

struct EsmNames {
    require: String,
    url_helper: String,
    legacy: bool,
    unresolved: u64,
}

impl EsmNames {
    spec fn plan(&self) -> EsmPlan {
        EsmPlan { require: self.require@, url_helper: self.url_helper@, legacy: self.legacy, unresolved: self.unresolved }
    }
}

fn leaf_node(kind: Kind, text: &str, ctxt: u64) -> (r: Node)
    ensures
        r@ == leaf(kind, text@, ctxt),
{
    let r = mk(kind, text, ctxt, Vec::new());
    proof { assert(r@.children =~= Seq::<Term>::empty()); }
    r
}

fn branch1(kind: Kind, text: &str, a: Node) -> (r: Node)
    ensures
        r@ == branch(kind, text@, seq![a@]),
{
    let ghost av = a@;
    let r = mk(kind, text, 0, vec![a]);
    proof { assert(r@.children =~= seq![av]); }
    r
}

fn branch2(kind: Kind, text: &str, a: Node, b: Node) -> (r: Node)
    ensures
        r@ == branch(kind, text@, seq![a@, b@]),
{
    let ghost (av, bv) = (a@, b@);
    let r = mk(kind, text, 0, vec![a, b]);
    proof { assert(r@.children =~= seq![av, bv]); }
    r
}

fn branch3(kind: Kind, text: &str, a: Node, b: Node, c: Node) -> (r: Node)
    ensures
        r@ == branch(kind, text@, seq![a@, b@, c@]),
{
    let ghost (av, bv, cv) = (a@, b@, c@);
    let r = mk(kind, text, 0, vec![a, b, c]);
    proof { assert(r@.children =~= seq![av, bv, cv]); }
    r
}

fn meta_member_node(p: &str) -> (r: Node)
    ensures
        r@ == meta_member(p@),
{
    branch1(Kind::Member, p, leaf_node(Kind::MetaProp, "import.meta", 0))
}

fn esm_ident_node(n: &EsmNames, t: &Node) -> (r: Node)
    requires
        t.kind == Kind::Ident,
    ensures
        r@ == esm_ident(n.plan(), t@),
{
    proof { lemma_children_view(*t); }
    proof {
        reveal_strlit("");
        assert(""@ =~= Seq::<char>::empty());
    }
    if eq_str(&t.text, "require") {
        leaf_node(Kind::Ident, n.require.as_str(), TOP_LEVEL)
    } else if t.ctxt == n.unresolved && eq_str(&t.text, "__dirname") {
        if n.legacy {
            branch2(
                Kind::Call,
                "",
                leaf_node(Kind::Ident, n.url_helper.as_str(), TOP_LEVEL),
                branch3(
                    Kind::New,
                    "",
                    leaf_node(Kind::Ident, "URL", n.unresolved),
                    leaf_node(Kind::Str, ".", 0),
                    meta_member_node("url"),
                ),
            )
        } else {
            meta_member_node("dirname")
        }
    } else if t.ctxt == n.unresolved && eq_str(&t.text, "__filename") {
        if n.legacy {
            branch2(Kind::Call, "", leaf_node(Kind::Ident, n.url_helper.as_str(), TOP_LEVEL), meta_member_node("url"))
        } else {
            meta_member_node("filename")
        }
    } else {
        copy_tree(t)
    }
}

/// The ESM rewrite of `t`, and whether `t` holds an unshadowed `__dirname`
/// or `__filename`.
fn esm_node(n: &EsmNames, t: &Node) -> (r: (Node, bool))
    ensures
        r.0@ == esm(n.plan(), t@),
        r.1 == uses_free_dir(t@, n.unresolved),
    decreases t,
{
    proof { lemma_children_view(*t); }
    if t.kind == Kind::Ident {
        let dir = t.ctxt == n.unresolved && (eq_str(&t.text, "__dirname") || eq_str(&t.text, "__filename"));
        return (esm_ident_node(n, t), dir);
    }
    let mut out: Vec<Node> = Vec::new();
    let mut dir = false;
    let mut i: usize = 0;
    while i < t.children.len()
        invariant
            i <= t.children.len(),
            t@.children.len() == t.children.len(),
            forall|j: int| 0 <= j < t.children.len() ==> #[trigger] t@.children[j] == t.children[j]@,
            terms(out@) == esm_upto(n.plan(), t@, i as int),
            dir == uses_free_dir_upto(t@, n.unresolved, i as int),
        decreases t.children.len() - i,
    {
        proof {
            broadcast use vstd::std_specs::vec::axiom_vec_index_decreases;
            assert(decreases_to!(*t => t.children));
        }
        let (x, d) = esm_node(n, &t.children[i]);
        proof { lemma_terms_push(out@, x); }
        out.push(x);
        dir = dir || d;
        i += 1;
    }
    (mk(t.kind, t.text.as_str(), t.ctxt, out), dir)
}

/// The local name of the first named import of `name` from `source` in `m`.
fn find_import(m: &Node, source: &str, name: &str) -> (r: Option<String>)
    ensures
        r matches Some(l) ==> existing_import(m@, source@, name@) == Some(l@),
        r is None ==> existing_import(m@, source@, name@) is None,
{
    proof { lemma_children_view(*m); }
    let mut k: usize = 0;
    while k < m.children.len()
        invariant
            k <= m.children.len(),
            m@.children.len() == m.children.len(),
            forall|j: int| 0 <= j < m.children.len() ==> #[trigger] m@.children[j] == m.children[j]@,
            local_in_items(m@, source@, name@, k as int) is None,
        decreases m.children.len() - k,
    {
        let item = &m.children[k];
        proof { lemma_children_view(*item); }
        if item.kind == Kind::ImportDecl && eq_str(&item.text, source) {
            let mut j: usize = 0;
            while j < item.children.len()
                invariant
                    j <= item.children.len(),
                    item@.children.len() == item.children.len(),
                    forall|x: int| 0 <= x < item.children.len() ==> #[trigger] item@.children[x] == item.children[x]@,
                    local_in_decl(item@, name@, j as int) is None,
                    k < m.children.len(),
                    m@.children.len() == m.children.len(),
                    item@ == m@.children[k as int],
                    item@.kind == Kind::ImportDecl,
                    item@.text == source@,
                    local_in_items(m@, source@, name@, k as int) is None,
                decreases item.children.len() - j,
            {
                let spec = &item.children[j];
                proof { lemma_children_view(*spec); }
                if spec.kind == Kind::ImportNamed && spec.children.len() > 0 && spec.children[0].kind == Kind::Ident {
                    let local = &spec.children[0];
                    let imported = if spec.text.as_str().unicode_len() == 0 { &local.text } else { &spec.text };
                    if eq_str(imported, name) {
                        proof {
                            assert(local_in_decl(item@, name@, j + 1) == Some(local.text@));
                            assert(local_in_decl(item@, name@, item@.children.len() as int) == Some(local.text@))
                                by { lemma_local_in_decl_stays(item@, name@, j + 1, item@.children.len() as int); }
                            assert(local_in_items(m@, source@, name@, k + 1) == Some(local.text@));
                            lemma_local_in_items_stays(m@, source@, name@, k + 1, m@.children.len() as int);
                        }
                        return Some(local.text.clone());
                    }
                }
                j += 1;
            }
        }
        k += 1;
    }
    None
}

proof fn lemma_local_in_decl_stays(decl: Term, name: Seq<char>, j: int, k: int)
    requires
        0 < j <= k <= decl.children.len(),
        local_in_decl(decl, name, j) is Some,
    ensures
        local_in_decl(decl, name, k) == local_in_decl(decl, name, j),
    decreases k - j,
{
    if j < k {
        lemma_local_in_decl_stays(decl, name, j, k - 1);
    }
}

proof fn lemma_local_in_items_stays(m: Term, source: Seq<char>, name: Seq<char>, j: int, k: int)
    requires
        0 < j <= k <= m.children.len(),
        local_in_items(m, source, name, j) is Some,
    ensures
        local_in_items(m, source, name, k) == local_in_items(m, source, name, j),
    decreases k - j,
{
    if j < k {
        lemma_local_in_items_stays(m, source, name, j, k - 1);
    }
}

fn import_node(source: &str, imported: &str, local: &str) -> (r: Node)
    ensures
        r@ == import_term(source@, imported@, local@),
{
    branch1(Kind::ImportDecl, source, branch1(Kind::ImportNamed, imported, leaf_node(Kind::Ident, local, TOP_LEVEL)))
}

fn require_const_node(req: &str, create: &str) -> (r: Node)
    ensures
        r@ == require_const(req@, create@),
{
    proof {
        reveal_strlit("");
        assert(""@ =~= Seq::<char>::empty());
    }
    let call = branch2(Kind::Call, "", leaf_node(Kind::Ident, create, TOP_LEVEL), meta_member_node("url"));
    let decl = branch2(Kind::Declarator, "", leaf_node(Kind::Ident, req, TOP_LEVEL), call);
    branch1(Kind::VarDecl, "const", decl)
}

/// Lowers module `m` for an ESM target: unshadowed `__dirname` and
/// `__filename` become `import.meta` properties (or, in legacy mode, calls
/// of the URL-to-path helper, imported once when needed), and every `require`
/// becomes one synthesized binding of `createRequire(import.meta.url)`.
pub fn shims_esm_module(m: &Node, legacy: bool, unresolved: u64) -> (r: Node)
    ensures
        r@ == shims_esm(m@, legacy, unresolved),
{
    let mut names: Vec<String> = Vec::new();
    collect_idents(m, &mut names);
    proof { assert(texts(names@) =~= idents(m@)); }
    let req = fresh_name("__require", &names);
    let url_existing = find_import(m, "node:url", "fileURLToPath");
    let has_url_import = url_existing.is_some();
    let url_helper = match url_existing {
        Some(l) => l,
        None => fresh_name("fileURLToPath", &names),
    };
    let plan = EsmNames { require: req, url_helper, legacy, unresolved };
    proof { lemma_children_view(*m); }
    let mut body: Vec<Node> = Vec::new();
    let mut dir = false;
    let mut i: usize = 0;
    while i < m.children.len()
        invariant
            i <= m.children.len(),
            m@.children.len() == m.children.len(),
            forall|j: int| 0 <= j < m.children.len() ==> #[trigger] m@.children[j] == m.children[j]@,
            plan.plan() == esm_plan(m@, legacy, unresolved),
            terms(body@) == esm_upto(plan.plan(), m@, i as int),
            dir == uses_free_dir_upto(m@, unresolved, i as int),
        decreases m.children.len() - i,
    {
        let (x, d) = esm_node(&plan, &m.children[i]);
        proof { lemma_terms_push(body@, x); }
        body.push(x);
        dir = dir || d;
        i += 1;
    }
    let mut items: Vec<Node> = Vec::new();
    let require_word = owned("require");
    if contains_text(&names, &require_word) {
        let cr_existing = find_import(m, "node:module", "createRequire");
        let create = match cr_existing {
            Some(l) => l,
            None => {
                let c = fresh_name("_createRequire", &names);
                items.push(import_node("node:module", "createRequire", c.as_str()));
                c
            },
        };
        items.push(require_const_node(plan.require.as_str(), create.as_str()));
        proof { assert(terms(items@) =~= require_prelude(m@)); }
    } else {
        proof { assert(terms(items@) =~= require_prelude(m@)); }
    }
    let ghost pre = terms(items@);
    if legacy && dir && !has_url_import {
        items.push(import_node("node:url", "fileURLToPath", plan.url_helper.as_str()));
    }
    proof { assert(terms(items@) =~= pre + url_prelude(m@, legacy, unresolved)); }
    let ghost pre2 = terms(items@);
    let ghost bv = terms(body@);
    items.append(&mut body);
    proof { assert(terms(items@) =~= pre2 + bv); }
    mk(m.kind, m.text.as_str(), m.ctxt, items)
}

// ---------------------------------------------------------------------------
// CJS target
// ---------------------------------------------------------------------------

/// A binding destructured from `import.meta`: the binding's name and scope
/// token, and the property it was taken from.
pub struct MetaBinding {
    pub name: Seq<char>,
    pub ctxt: u64,
    pub prop: Seq<char>,
}

pub open spec fn is_meta_prop_name(p: Seq<char>) -> bool {
    p == "dirname"@ || p == "filename"@ || p == "url"@
}

/// `import.meta` itself.
pub open spec fn is_import_meta(t: Term) -> bool {
    t.kind == Kind::MetaProp && t.text == "import.meta"@
}

/// A declarator `{ .. } = import.meta`.
pub open spec fn is_meta_destructure(d: Term) -> bool {
    d.kind == Kind::Declarator && d.children.len() == 2 && d.children[0].kind == Kind::ObjectPat
        && is_import_meta(d.children[1])
}

/// What one property of a destructuring of `import.meta` records.
pub open spec fn prop_binding(p: Term) -> Seq<MetaBinding> {
    if p.kind == Kind::KeyValuePat && p.children.len() > 0 && p.children[0].kind == Kind::Ident
        && is_meta_prop_name(p.text) {
        seq![MetaBinding { name: p.children[0].text, ctxt: p.children[0].ctxt, prop: p.text }]
    } else if p.kind == Kind::AssignPat && p.children.len() > 0 && p.children[0].kind == Kind::Ident
        && is_meta_prop_name(p.children[0].text) {
        seq![MetaBinding { name: p.children[0].text, ctxt: p.children[0].ctxt, prop: p.children[0].text }]
    } else {
        Seq::empty()
    }
}

/// What the first `k` properties of object pattern `pat` record.
pub open spec fn pattern_bindings(pat: Term, k: int) -> Seq<MetaBinding>
    decreases k,
{
    if k <= 0 || k > pat.children.len() {
        Seq::empty()
    } else {
        pattern_bindings(pat, k - 1) + prop_binding(pat.children[k - 1])
    }
}

/// The destructure map of `t`: every binding that a declarator
/// `{ .. } = import.meta` in `t` takes from `dirname`, `filename` or `url`.
pub open spec fn meta_bindings(t: Term) -> Seq<MetaBinding>
    decreases t, 1int, 0int,
{
    (if is_meta_destructure(t) {
        pattern_bindings(t.children[0], t.children[0].children.len() as int)
    } else {
        Seq::empty()
    }) + meta_bindings_upto(t, t.children.len() as int)
}

pub open spec fn meta_bindings_upto(t: Term, k: int) -> Seq<MetaBinding>
    decreases t, 0int, k,
{
    if k <= 0 || k > t.children.len() {
        Seq::empty()
    } else {
        meta_bindings_upto(t, k - 1) + meta_bindings(t.children[k - 1])
    }
}

/// The property recorded for binding (`name`, `ctxt`) among the first `k`
/// entries of `map`; the last such entry wins, as a later `var` declaration
/// of the same binding rebinds it.
pub open spec fn lookup(map: Seq<MetaBinding>, name: Seq<char>, ctxt: u64, k: int) -> Option<Seq<char>>
    decreases k,
{
    if k <= 0 || k > map.len() {
        None
    } else if map[k - 1].name == name && map[k - 1].ctxt == ctxt {
        Some(map[k - 1].prop)
    } else {
        lookup(map, name, ctxt, k - 1)
    }
}

/// `require("url").pathToFileURL(__filename).toString()`.
pub open spec fn cjs_url(unresolved: u64) -> Term {
    let req = branch(Kind::Call, Seq::empty(), seq![leaf(Kind::Ident, "require"@, unresolved), leaf(Kind::Str, "url"@, 0)]);
    let to_url = branch(
        Kind::Call,
        Seq::empty(),
        seq![branch(Kind::Member, "pathToFileURL"@, seq![req]), leaf(Kind::Ident, "__filename"@, unresolved)],
    );
    branch(Kind::Call, Seq::empty(), seq![branch(Kind::Member, "toString"@, seq![to_url])])
}

/// The CJS replacement of an identifier bound to property `p` of `import.meta`.
pub open spec fn cjs_replacement(p: Seq<char>, unresolved: u64, t: Term) -> Term {
    if p == "dirname"@ {
        leaf(Kind::Ident, "__dirname"@, unresolved)
    } else if p == "filename"@ {
        leaf(Kind::Ident, "__filename"@, unresolved)
    } else if p == "url"@ {
        cjs_url(unresolved)
    } else {
        t
    }
}

/// `import.meta.dirname` or `import.meta.filename`.
pub open spec fn is_meta_dir_member(t: Term) -> bool {
    t.kind == Kind::Member && t.children.len() == 1 && is_import_meta(t.children[0])
        && (t.text == "dirname"@ || t.text == "filename"@)
}

/// A child that the CJS rewrite removes from the list of a node of kind
/// `parent`: an erased declarator from a declaration, an empty statement
/// from a block or the module.
pub open spec fn dropped(parent: Kind, c: Term) -> bool {
    (parent == Kind::VarDecl && c.kind == Kind::Declarator && c.children.len() > 0
        && c.children[0].kind == Kind::Invalid)
    || ((parent == Kind::Block || parent == Kind::Module) && c.kind == Kind::Empty)
}

/// What the CJS rewrite needs to know: the destructure map and the
/// unresolved token.
pub struct CjsPlan {
    pub map: Seq<MetaBinding>,
    pub unresolved: u64,
}

/// A statement that the CJS rewrite left empty: a declaration whose
/// declarators were all erased, or an export of an empty statement.
pub open spec fn emptied(kind: Kind, cs: Seq<Term>) -> bool {
    (kind == Kind::VarDecl && cs.len() == 0) || (kind == Kind::ExportDecl && cs.len() > 0 && cs[0].kind == Kind::Empty)
}

/// The CJS rewrite of a tree.
pub open spec fn cjs(p: CjsPlan, t: Term) -> Term
    decreases t, 1int, 0int,
{
    if t.kind == Kind::Ident {
        match lookup(p.map, t.text, t.ctxt, p.map.len() as int) {
            Some(prop) => cjs_replacement(prop, p.unresolved, t),
            None => t,
        }
    } else if is_meta_dir_member(t) {
        leaf(Kind::Ident, if t.text == "dirname"@ { "__dirname"@ } else { "__filename"@ }, p.unresolved)
    } else if is_meta_destructure(t) {
        with_children(t, seq![leaf(Kind::Invalid, Seq::empty(), 0), t.children[1]])
    } else {
        let cs = cjs_upto(p, t, t.children.len() as int);
        if emptied(t.kind, cs) { leaf(Kind::Empty, Seq::empty(), 0) } else { with_children(t, cs) }
    }
}

pub open spec fn cjs_upto(p: CjsPlan, t: Term, k: int) -> Seq<Term>
    decreases t, 0int, k,
{
    if k <= 0 || k > t.children.len() {
        Seq::empty()
    } else {
        let c = cjs(p, t.children[k - 1]);
        cjs_upto(p, t, k - 1) + if dropped(t.kind, c) { Seq::empty() } else { seq![c] }
    }
}

pub open spec fn cjs_plan(m: Term, unresolved: u64) -> CjsPlan {
    CjsPlan { map: meta_bindings(m), unresolved }
}

/// The CJS shims of module `m`: the rewrite, then the renaming of bindings
/// that would capture the free names it puts in.
pub open spec fn shims_cjs(m: Term, unresolved: u64) -> Term {
    hygiene(cjs(cjs_plan(m, unresolved), m), unresolved)
}

struct BindingEntry {
    name: String,
    ctxt: u64,
    prop: String,
}

impl BindingEntry {
    spec fn entry(&self) -> MetaBinding {
        MetaBinding { name: self.name@, ctxt: self.ctxt, prop: self.prop@ }
    }
}

spec fn entries(v: Seq<BindingEntry>) -> Seq<MetaBinding> {
    v.map_values(|b: BindingEntry| b.entry())
}

fn is_meta_prop_name_exec(p: &String) -> (r: bool)
    ensures
        r == is_meta_prop_name(p@),
{
    eq_str(p, "dirname") || eq_str(p, "filename") || eq_str(p, "url")
}

fn is_import_meta_node(t: &Node) -> (r: bool)
    ensures
        r == is_import_meta(t@),
{
    t.kind == Kind::MetaProp && eq_str(&t.text, "import.meta")
}

fn is_meta_destructure_node(d: &Node) -> (r: bool)
    ensures
        r == is_meta_destructure(d@),
{
    proof { lemma_children_view(*d); }
    d.kind == Kind::Declarator && d.children.len() == 2 && d.children[0].kind == Kind::ObjectPat
        && is_import_meta_node(&d.children[1])
}

fn push_binding(acc: &mut Vec<BindingEntry>, id: &Node, prop: &String)
    ensures
        entries(final(acc)@) == entries(old(acc)@).push(MetaBinding { name: id.text@, ctxt: id.ctxt, prop: prop@ }),
{
    acc.push(BindingEntry { name: id.text.clone(), ctxt: id.ctxt, prop: prop.clone() });
    proof {
        assert(entries(acc@) =~= entries(old(acc)@).push(MetaBinding { name: id.text@, ctxt: id.ctxt, prop: prop@ }));
    }
}

fn collect_pattern(pat: &Node, acc: &mut Vec<BindingEntry>)
    ensures
        entries(final(acc)@) == entries(old(acc)@) + pattern_bindings(pat@, pat@.children.len() as int),
{
    proof { lemma_children_view(*pat); }
    let ghost start = entries(acc@);
    let mut i: usize = 0;
    proof { assert(start =~= start + pattern_bindings(pat@, 0)); }
    while i < pat.children.len()
        invariant
            i <= pat.children.len(),
            pat@.children.len() == pat.children.len(),
            forall|j: int| 0 <= j < pat.children.len() ==> #[trigger] pat@.children[j] == pat.children[j]@,
            entries(acc@) == start + pattern_bindings(pat@, i as int),
        decreases pat.children.len() - i,
    {
        let p = &pat.children[i];
        proof { lemma_children_view(*p); }
        let ghost before = entries(acc@);
        if p.kind == Kind::KeyValuePat && p.children.len() > 0 && p.children[0].kind == Kind::Ident
            && is_meta_prop_name_exec(&p.text) {
            proof { lemma_children_view(p.children[0]); }
            push_binding(acc, &p.children[0], &p.text);
        } else if p.kind == Kind::AssignPat && p.children.len() > 0 && p.children[0].kind == Kind::Ident
            && is_meta_prop_name_exec(&p.children[0].text) {
            proof { lemma_children_view(p.children[0]); }
            push_binding(acc, &p.children[0], &p.children[0].text);
        }
        proof {
            assert(entries(acc@) =~= before + prop_binding(pat@.children[i as int]));
            assert(entries(acc@) =~= start + pattern_bindings(pat@, i + 1));
        }
        i += 1;
    }
}

/// Appends the destructure map of `t` to `acc`.
fn collect_meta_bindings(t: &Node, acc: &mut Vec<BindingEntry>)
    ensures
        entries(final(acc)@) == entries(old(acc)@) + meta_bindings(t@),
    decreases t,
{
    proof { lemma_children_view(*t); }
    let ghost start = entries(acc@);
    if is_meta_destructure_node(t) {
        collect_pattern(&t.children[0], acc);
    } else {
        proof { assert(entries(acc@) =~= start + Seq::<MetaBinding>::empty()); }
    }
    let ghost head = entries(acc@);
    let mut i: usize = 0;
    proof { assert(head =~= head + meta_bindings_upto(t@, 0)); }
    while i < t.children.len()
        invariant
            i <= t.children.len(),
            t@.children.len() == t.children.len(),
            forall|j: int| 0 <= j < t.children.len() ==> #[trigger] t@.children[j] == t.children[j]@,
            entries(acc@) == head + meta_bindings_upto(t@, i as int),
        decreases t.children.len() - i,
    {
        proof {
            broadcast use vstd::std_specs::vec::axiom_vec_index_decreases;
            assert(decreases_to!(*t => t.children));
        }
        collect_meta_bindings(&t.children[i], acc);
        proof { assert(entries(acc@) =~= head + meta_bindings_upto(t@, i + 1)); }
        i += 1;
    }
    proof { assert(start + meta_bindings(t@) =~= head + meta_bindings_upto(t@, t@.children.len() as int)); }
}

fn lookup_binding<'a>(map: &'a Vec<BindingEntry>, name: &String, ctxt: u64) -> (r: Option<&'a String>)
    ensures
        r matches Some(p) ==> lookup(entries(map@), name@, ctxt, map@.len() as int) == Some(p@),
        r is None ==> lookup(entries(map@), name@, ctxt, map@.len() as int) is None,
{
    let ghost m = entries(map@);
    let mut k: usize = map.len();
    while k > 0
        invariant
            k <= map@.len(),
            m == entries(map@),
            lookup(m, name@, ctxt, map@.len() as int) == lookup(m, name@, ctxt, k as int),
        decreases k,
    {
        if map[k - 1].name == *name && map[k - 1].ctxt == ctxt {
            return Some(&map[k - 1].prop);
        }
        k -= 1;
    }
    None
}

struct CjsNames {
    map: Vec<BindingEntry>,
    unresolved: u64,
}

impl CjsNames {
    spec fn plan(&self) -> CjsPlan {
        CjsPlan { map: entries(self.map@), unresolved: self.unresolved }
    }
}

fn cjs_url_node(unresolved: u64) -> (r: Node)
    ensures
        r@ == cjs_url(unresolved),
{
    proof {
        reveal_strlit("");
        assert(""@ =~= Seq::<char>::empty());
    }
    let req = branch2(Kind::Call, "", leaf_node(Kind::Ident, "require", unresolved), leaf_node(Kind::Str, "url", 0));
    let to_url = branch2(
        Kind::Call,
        "",
        branch1(Kind::Member, "pathToFileURL", req),
        leaf_node(Kind::Ident, "__filename", unresolved),
    );
    branch1(Kind::Call, "", branch1(Kind::Member, "toString", to_url))
}

fn dropped_node(parent: Kind, c: &Node) -> (r: bool)
    ensures
        r == dropped(parent, c@),
{
    proof {
        lemma_children_view(*c);
        if c.children.len() > 0 {
            lemma_children_view(c.children[0]);
        }
    }
    (parent == Kind::VarDecl && c.kind == Kind::Declarator && c.children.len() > 0
        && c.children[0].kind == Kind::Invalid)
    || ((parent == Kind::Block || parent == Kind::Module) && c.kind == Kind::Empty)
}

fn cjs_node(n: &CjsNames, t: &Node) -> (r: Node)
    ensures
        r@ == cjs(n.plan(), t@),
    decreases t,
{
    let unresolved = n.unresolved;
    proof {
        lemma_children_view(*t);
        reveal_strlit("");
        assert(""@ =~= Seq::<char>::empty());
    }
    if t.kind == Kind::Ident {
        return match lookup_binding(&n.map, &t.text, t.ctxt) {
            Some(p) => {
                if eq_str(p, "dirname") {
                    leaf_node(Kind::Ident, "__dirname", unresolved)
                } else if eq_str(p, "filename") {
                    leaf_node(Kind::Ident, "__filename", unresolved)
                } else if eq_str(p, "url") {
                    cjs_url_node(unresolved)
                } else {
                    copy_tree(t)
                }
            },
            None => copy_tree(t),
        };
    }
    if t.kind == Kind::Member && t.children.len() == 1 && is_import_meta_node(&t.children[0]) {
        if eq_str(&t.text, "dirname") {
            return leaf_node(Kind::Ident, "__dirname", unresolved);
        } else if eq_str(&t.text, "filename") {
            return leaf_node(Kind::Ident, "__filename", unresolved);
        }
    }
    if is_meta_destructure_node(t) {
        return branch2(t.kind, t.text.as_str(), leaf_node(Kind::Invalid, "", 0), copy_tree(&t.children[1]))
            .with_ctxt(t.ctxt);
    }
    let mut out: Vec<Node> = Vec::new();
    let mut i: usize = 0;
    while i < t.children.len()
        invariant
            i <= t.children.len(),
            t@.children.len() == t.children.len(),
            forall|j: int| 0 <= j < t.children.len() ==> #[trigger] t@.children[j] == t.children[j]@,
            terms(out@) == cjs_upto(n.plan(), t@, i as int),
            unresolved == n.unresolved,
        decreases t.children.len() - i,
    {
        proof {
            broadcast use vstd::std_specs::vec::axiom_vec_index_decreases;
            assert(decreases_to!(*t => t.children));
        }
        let x = cjs_node(n, &t.children[i]);
        if !dropped_node(t.kind, &x) {
            proof { lemma_terms_push(out@, x); }
            out.push(x);
        }
        proof {
            assert(terms(out@) =~= cjs_upto(n.plan(), t@, i + 1));
        }
        i += 1;
    }
    if (t.kind == Kind::VarDecl && out.len() == 0) || (t.kind == Kind::ExportDecl && out.len() > 0
        && out[0].kind == Kind::Empty) {
        proof {
            if out.len() > 0 {
                lemma_children_view(out[0]);
            }
        }
        return leaf_node(Kind::Empty, "", 0);
    }
    mk(t.kind, t.text.as_str(), t.ctxt, out)
}

/// Lowers module `m` for a CJS target: `import.meta.dirname` and
/// `import.meta.filename` become `__dirname` and `__filename`, declarators
/// that destructure `import.meta` are removed (a statement left empty by that
/// becomes an empty statement, which blocks and the module drop), and the
/// bindings they introduced are replaced by what they stood for. Then a
/// binding of the program's own that would capture a free `__dirname`,
/// `__filename` or `require` is renamed.
pub fn shims_cjs_module(m: &Node, unresolved: u64) -> (r: Node)
    ensures
        r@ == shims_cjs(m@, unresolved),
{
    let mut map: Vec<BindingEntry> = Vec::new();
    collect_meta_bindings(m, &mut map);
    proof { assert(entries(map@) =~= meta_bindings(m@)); }
    let plan = CjsNames { map, unresolved };
    let rewritten = cjs_node(&plan, m);
    hygiene_module(&rewritten, unresolved)
}

/// The shims pass for `config` on module `m`, whose free occurrences carry
/// token `unresolved`.
pub open spec fn shims(config: Config, unresolved: u64, m: Term) -> Term {
    match config.target {
        Target::ESM => shims_esm(m, config.legacy, unresolved),
        Target::CJS => shims_cjs(m, unresolved),
        Target::UNKNOWN => m,
    }
}

/// Runs the shims pass for `config` on a resolved module.
pub fn shims_pass(config: &Config, unresolved: u64, m: &Node) -> (r: Node)
    ensures
        r@ == shims(*config, unresolved, m@),
{
    match config.target {
        Target::ESM => shims_esm_module(m, config.legacy, unresolved),
        Target::CJS => shims_cjs_module(m, unresolved),
        Target::UNKNOWN => copy_tree(m),
    }
}

/// Resolves the scopes of module `m`, then runs the shims pass on it.
pub fn transform_shims(config: &Config, m: &Node) -> (r: Node)
    ensures
        r@ == shims(*config, UNRESOLVED, resolve_module(m@)),
{
    let (resolved, unresolved) = resolve_module_tree(m);
    shims_pass(config, unresolved, &resolved)
}

/// Every `require` of a module becomes one and the same synthesized name, and
/// the helper import and the binding of that name are put in front of the
/// module once, whatever the number of occurrences; with none, nothing is put
/// there.
pub proof fn lemma_require_hoisted_once(m: Term, legacy: bool, unresolved: u64, t: Term, u: Term)
    requires
        t.kind == Kind::Ident && t.text == "require"@,
        u.kind == Kind::Ident && u.text == "require"@,
    ensures
        esm(esm_plan(m, legacy, unresolved), t) == esm(esm_plan(m, legacy, unresolved), u),
        esm(esm_plan(m, legacy, unresolved), t) == leaf(Kind::Ident, fresh("__require"@, idents(m)), TOP_LEVEL),
        !idents(m).contains("require"@) ==> require_prelude(m).len() == 0,
        idents(m).contains("require"@) ==> {
            let pre = require_prelude(m);
            &&& pre.len() == if existing_import(m, "node:module"@, "createRequire"@) is None { 2int } else { 1int }
            &&& pre.last() == require_const(fresh("__require"@, idents(m)), create_require_of(m))
            &&& existing_import(m, "node:module"@, "createRequire"@) is None ==> pre[0] == import_term(
                "node:module"@,
                "createRequire"@,
                create_require_of(m),
            )
        },
{
}

/// The names synthesized for the ESM helpers collide with no identifier of the
/// module (unless an existing import of the helper is reused), and the ESM
/// rewrite leaves every other identifier, such as a user's own binding named
/// like a helper, as it was.
pub proof fn lemma_helper_names_fresh(m: Term, legacy: bool, unresolved: u64, t: Term)
    requires
        t.kind == Kind::Ident,
        t.text != "require"@,
        t.text != "__dirname"@,
        t.text != "__filename"@,
    ensures
        !idents(m).contains(esm_plan(m, legacy, unresolved).require),
        existing_import(m, "node:module"@, "createRequire"@) is None ==> !idents(m).contains(create_require_of(m)),
        existing_import(m, "node:url"@, "fileURLToPath"@) is None ==> !idents(m).contains(url_helper_of(m)),
        esm(esm_plan(m, legacy, unresolved), t) == t,
{
    crate::text::lemma_fresh("__require"@, idents(m));
    crate::text::lemma_fresh("_createRequire"@, idents(m));
    crate::text::lemma_fresh("fileURLToPath"@, idents(m));
}

/// The ESM rewrite never touches a `__dirname` or `__filename` that a
/// declaration binds: only occurrences carrying the unresolved token change.
pub proof fn lemma_shadowed_untouched(m: Term, legacy: bool, unresolved: u64, t: Term)
    requires
        t.kind == Kind::Ident,
        t.text == "__dirname"@ || t.text == "__filename"@,
        t.ctxt != unresolved,
    ensures
        esm(esm_plan(m, legacy, unresolved), t) == t,
{
    reveal_strlit("require");
    reveal_strlit("__dirname");
    reveal_strlit("__filename");
    assert("__dirname"@.len() != "require"@.len());
    assert("__filename"@.len() != "require"@.len());
}

/// The CJS rewrite changes an identifier only where the destructure map
/// records its binding.
pub proof fn lemma_unrecorded_untouched(m: Term, unresolved: u64, t: Term)
    requires
        t.kind == Kind::Ident,
        lookup(meta_bindings(m), t.text, t.ctxt, meta_bindings(m).len() as int) is None,
    ensures
        cjs(cjs_plan(m, unresolved), t) == t,
{
}

/// A declarator that destructures `import.meta` is erased by the CJS
/// rewrite and so removed from its declaration.
pub proof fn lemma_meta_destructure_erased(m: Term, unresolved: u64, d: Term)
    requires
        is_meta_destructure(d),
    ensures
        dropped(Kind::VarDecl, cjs(cjs_plan(m, unresolved), d)),
{
}

proof fn lemma_all_erased(p: CjsPlan, s: Term, k: int)
    requires
        s.kind == Kind::VarDecl,
        0 <= k <= s.children.len(),
        forall|i: int| 0 <= i < s.children.len() ==> is_meta_destructure(#[trigger] s.children[i]),
    ensures
        cjs_upto(p, s, k).len() == 0,
    decreases k,
{
    if k > 0 {
        lemma_all_erased(p, s, k - 1);
        let d = s.children[k - 1];
        assert(is_meta_destructure(d));
        let c = cjs(p, d);
        assert(c == with_children(d, seq![leaf(Kind::Invalid, Seq::empty(), 0), d.children[1]]));
        assert(c.children[0].kind == Kind::Invalid);
        assert(dropped(s.kind, c));
    }
}

/// A declaration whose declarators all destructure `import.meta` becomes an
/// empty statement wherever it stands, and so leaves nothing behind in a
/// block or the module.
pub proof fn lemma_meta_declaration_removed(m: Term, unresolved: u64, s: Term, parent: Kind)
    requires
        s.kind == Kind::VarDecl,
        forall|i: int| 0 <= i < s.children.len() ==> is_meta_destructure(#[trigger] s.children[i]),
        parent == Kind::Block || parent == Kind::Module,
    ensures
        cjs(cjs_plan(m, unresolved), s).kind == Kind::Empty,
        dropped(parent, cjs(cjs_plan(m, unresolved), s)),
{
    lemma_all_erased(cjs_plan(m, unresolved), s, s.children.len() as int);
}

} // verus!
