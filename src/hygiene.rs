//! Renaming of bindings that would capture a free reference.
//!
//! In CommonJS, `__dirname`, `__filename` and `require` are bound by the
//! module wrapper. When a rewritten module refers to one of them freely and
//! also binds the same name itself, the binding is given a fresh name so
//! that it no longer captures the free reference. A top-level binding that
//! the module exports by its declaration keeps its name, since that name is
//! part of the module's interface; import and export specifiers and
//! shorthand pattern properties keep the names they stood for.
use vstd::prelude::*;

use crate::resolver::{collect_stmt_names, stmt_names};
use crate::syntax::{
    branch, collect_idents, copy_tree, idents, lemma_children_view, lemma_terms_push, mk, terms, with_children,
    Kind, Node, Term, TOP_LEVEL,
};
use crate::text::{contains_text, eq_str, fresh, fresh_name, texts};

verus! {

/// The names of the identifiers of `t` that carry token `u`, in document
/// order.
pub open spec fn free_idents(t: Term, u: u64) -> Seq<Seq<char>>
    decreases t, 1int, 0int,
{
    (if t.kind == Kind::Ident && t.ctxt == u { seq![t.text] } else { Seq::empty() }) + free_idents_upto(t, u, t.children.len() as int)
}

pub open spec fn free_idents_upto(t: Term, u: u64, k: int) -> Seq<Seq<char>>
    decreases t, 0int, k,
{
    if k <= 0 || k > t.children.len() {
        Seq::empty()
    } else {
        free_idents_upto(t, u, k - 1) + free_idents(t.children[k - 1], u)
    }
}

/// The names declared by the export declarations among the first `k` items
/// of module `m`.
pub open spec fn exported_decl_names(m: Term, k: int) -> Seq<Seq<char>>
    decreases k,
{
    if k <= 0 || k > m.children.len() {
        Seq::empty()
    } else {
        let item = m.children[k - 1];
        exported_decl_names(m, k - 1) + if item.kind == Kind::ExportDecl && item.children.len() > 0 {
            stmt_names(item.children[0])
        } else {
            Seq::empty()
        }
    }
}

/// The new names of bound `__dirname`, `__filename` and `require`, where
/// they are renamed, and the top-level names that are kept.
pub struct Renaming {
    pub unresolved: u64,
    pub dirname: Option<Seq<char>>,
    pub filename: Option<Seq<char>>,
    pub require: Option<Seq<char>>,
    pub kept: Seq<Seq<char>>,
}

/// The new name of identifier `t`, if it is renamed.
pub open spec fn new_name(r: Renaming, t: Term) -> Option<Seq<char>> {
    if t.kind != Kind::Ident || t.ctxt == r.unresolved || (t.ctxt == TOP_LEVEL && r.kept.contains(t.text)) {
        None
    } else if t.text == "__dirname"@ {
        r.dirname
    } else if t.text == "__filename"@ {
        r.filename
    } else if t.text == "require"@ {
        r.require
    } else {
        None
    }
}

/// `t` with its renamed identifiers renamed.
pub open spec fn renamed(r: Renaming, t: Term) -> Term
    decreases t, 1int, 0int,
{
    if t.kind == Kind::Ident {
        match new_name(r, t) {
            Some(n) => Term { kind: t.kind, text: n, ctxt: t.ctxt, children: t.children },
            None => t,
        }
    } else {
        let cs = renamed_upto(r, t, t.children.len() as int);
        if (t.kind == Kind::ExportSpec || t.kind == Kind::ImportNamed) && t.text.len() == 0 && t.children.len() > 0
            && new_name(r, t.children[0]) is Some {
            // The specifier keeps the name it exported or imported.
            Term { kind: t.kind, text: t.children[0].text, ctxt: t.ctxt, children: cs }
        } else {
            with_children(t, cs)
        }
    }
}

/// Child `c` of a node of kind `parent`, renamed to `x`: a shorthand
/// property of an object pattern keeps the key it reads.
pub open spec fn renamed_child(r: Renaming, parent: Kind, c: Term, x: Term) -> Term {
    if parent == Kind::ObjectPat && c.kind == Kind::AssignPat && c.children.len() > 0
        && new_name(r, c.children[0]) is Some {
        branch(Kind::KeyValuePat, c.children[0].text, seq![x])
    } else {
        x
    }
}

pub open spec fn renamed_upto(r: Renaming, t: Term, k: int) -> Seq<Term>
    decreases t, 0int, k,
{
    if k <= 0 || k > t.children.len() {
        Seq::empty()
    } else {
        let c = t.children[k - 1];
        renamed_upto(r, t, k - 1).push(renamed_child(r, t.kind, c, renamed(r, c)))
    }
}

pub open spec fn rename_one(base: Seq<char>, o: Term, u: u64) -> Option<Seq<char>> {
    if free_idents(o, u).contains(base) { Some(fresh(base, idents(o))) } else { None }
}

/// The renaming for module `o`: a name is renamed where `o` also refers to
/// it freely.
pub open spec fn renaming_for(o: Term, u: u64) -> Renaming {
    Renaming {
        unresolved: u,
        dirname: rename_one("__dirname"@, o, u),
        filename: rename_one("__filename"@, o, u),
        require: rename_one("require"@, o, u),
        kept: exported_decl_names(o, o.children.len() as int),
    }
}

/// Module `o` with the bindings that would capture its free `__dirname`,
/// `__filename` or `require` renamed.
pub open spec fn hygiene(o: Term, u: u64) -> Term {
    renamed(renaming_for(o, u), o)
}

/// A new name never occurs in the module, so it captures nothing and
/// nothing captures it.
pub proof fn lemma_new_names_fresh(o: Term, u: u64)
    ensures
        renaming_for(o, u).dirname matches Some(n) ==> !idents(o).contains(n),
        renaming_for(o, u).filename matches Some(n) ==> !idents(o).contains(n),
        renaming_for(o, u).require matches Some(n) ==> !idents(o).contains(n),
{
    crate::text::lemma_fresh("__dirname"@, idents(o));
    crate::text::lemma_fresh("__filename"@, idents(o));
    crate::text::lemma_fresh("require"@, idents(o));
}

/// Only a bound `__dirname`, `__filename` or `require` whose name the module
/// also uses freely is renamed; every other identifier stays as it is.
pub proof fn lemma_renaming_is_limited(o: Term, u: u64, t: Term)
    requires
        t.kind == Kind::Ident,
        new_name(renaming_for(o, u), t) is Some,
    ensures
        t.ctxt != u,
        t.text == "__dirname"@ || t.text == "__filename"@ || t.text == "require"@,
        free_idents(o, u).contains(t.text),
{
}

fn collect_free_idents(t: &Node, u: u64, acc: &mut Vec<String>)
    ensures
        texts(final(acc)@) == texts(old(acc)@) + free_idents(t@, u),
    decreases t,
{
    let ghost start = texts(acc@);
    proof { lemma_children_view(*t); }
    if t.kind == Kind::Ident && t.ctxt == u {
        acc.push(t.text.clone());
        proof { assert(texts(acc@) =~= start + seq![t@.text]); }
    } else {
        proof { assert(texts(acc@) =~= start + Seq::<Seq<char>>::empty()); }
    }
    let ghost head = texts(acc@);
    let mut i: usize = 0;
    while i < t.children.len()
        invariant
            i <= t.children.len(),
            t@.children.len() == t.children.len(),
            forall|j: int| 0 <= j < t.children.len() ==> #[trigger] t@.children[j] == t.children[j]@,
            texts(acc@) == head + free_idents_upto(t@, u, i as int),
        decreases t.children.len() - i,
    {
        proof {
            broadcast use vstd::std_specs::vec::axiom_vec_index_decreases;
            assert(decreases_to!(*t => t.children));
        }
        collect_free_idents(&t.children[i], u, acc);
        proof { assert(texts(acc@) =~= head + free_idents_upto(t@, u, i + 1)); }
        i += 1;
    }
    proof { assert(start + free_idents(t@, u) =~= head + free_idents_upto(t@, u, t@.children.len() as int)); }
}

fn collect_exported_decl_names(m: &Node) -> (r: Vec<String>)
    ensures
        texts(r@) == exported_decl_names(m@, m@.children.len() as int),
{
    proof { lemma_children_view(*m); }
    let mut acc: Vec<String> = Vec::new();
    let mut i: usize = 0;
    proof { assert(texts(acc@) =~= exported_decl_names(m@, 0)); }
    while i < m.children.len()
        invariant
            i <= m.children.len(),
            m@.children.len() == m.children.len(),
            forall|j: int| 0 <= j < m.children.len() ==> #[trigger] m@.children[j] == m.children[j]@,
            texts(acc@) == exported_decl_names(m@, i as int),
        decreases m.children.len() - i,
    {
        let item = &m.children[i];
        proof { lemma_children_view(*item); }
        let ghost before = texts(acc@);
        if item.kind == Kind::ExportDecl && item.children.len() > 0 {
            collect_stmt_names(&item.children[0], &mut acc);
        }
        proof { assert(texts(acc@) =~= exported_decl_names(m@, i + 1)); }
        i += 1;
    }
    acc
}

struct RenameNames {
    unresolved: u64,
    dirname: Option<String>,
    filename: Option<String>,
    require: Option<String>,
    kept: Vec<String>,
}

spec fn opt_view(o: Option<String>) -> Option<Seq<char>> {
    match o {
        Some(s) => Some(s@),
        None => None,
    }
}

impl RenameNames {
    spec fn renaming(&self) -> Renaming {
        Renaming {
            unresolved: self.unresolved,
            dirname: opt_view(self.dirname),
            filename: opt_view(self.filename),
            require: opt_view(self.require),
            kept: texts(self.kept@),
        }
    }
}

fn new_name_exec<'a>(n: &'a RenameNames, t: &Node) -> (r: Option<&'a String>)
    ensures
        r matches Some(s) ==> new_name(n.renaming(), t@) == Some(s@),
        r is None ==> new_name(n.renaming(), t@) is None,
{
    proof { lemma_children_view(*t); }
    if t.kind != Kind::Ident || t.ctxt == n.unresolved || (t.ctxt == TOP_LEVEL && contains_text(&n.kept, &t.text)) {
        return None;
    }
    if eq_str(&t.text, "__dirname") {
        n.dirname.as_ref()
    } else if eq_str(&t.text, "__filename") {
        n.filename.as_ref()
    } else if eq_str(&t.text, "require") {
        n.require.as_ref()
    } else {
        None
    }
}

fn renamed_node(n: &RenameNames, t: &Node) -> (r: Node)
    ensures
        r@ == renamed(n.renaming(), t@),
    decreases t,
{
    proof { lemma_children_view(*t); }
    if t.kind == Kind::Ident {
        return match new_name_exec(n, t) {
            Some(name) => {
                let mut r = copy_tree(t);
                proof { lemma_children_view(r); }
                r.text = name.clone();
                proof { lemma_children_view(r); }
                r
            },
            None => copy_tree(t),
        };
    }
    let mut out: Vec<Node> = Vec::new();
    let mut i: usize = 0;
    while i < t.children.len()
        invariant
            i <= t.children.len(),
            t@.children.len() == t.children.len(),
            forall|j: int| 0 <= j < t.children.len() ==> #[trigger] t@.children[j] == t.children[j]@,
            terms(out@) == renamed_upto(n.renaming(), t@, i as int),
        decreases t.children.len() - i,
    {
        proof {
            broadcast use vstd::std_specs::vec::axiom_vec_index_decreases;
            assert(decreases_to!(*t => t.children));
        }
        let c = &t.children[i];
        proof { lemma_children_view(*c); }
        let x = renamed_node(n, c);
        let y = if t.kind == Kind::ObjectPat && c.kind == Kind::AssignPat && c.children.len() > 0
            && new_name_exec(n, &c.children[0]).is_some() {
            proof { lemma_children_view(c.children[0]); }
            let ghost xv = x@;
            let cs = vec![x];
            proof { assert(terms(cs@) =~= seq![xv]); }
            let k = mk(Kind::KeyValuePat, c.children[0].text.as_str(), 0, cs);
            proof { assert(k@ =~= branch(Kind::KeyValuePat, c@.children[0].text, seq![xv])); }
            k
        } else {
            x
        };
        proof { lemma_terms_push(out@, y); }
        out.push(y);
        i += 1;
    }
    if (t.kind == Kind::ExportSpec || t.kind == Kind::ImportNamed) && t.text.as_str().unicode_len() == 0
        && t.children.len() > 0 && new_name_exec(n, &t.children[0]).is_some() {
        proof { lemma_children_view(t.children[0]); }
        return mk(t.kind, t.children[0].text.as_str(), t.ctxt, out);
    }
    mk(t.kind, t.text.as_str(), t.ctxt, out)
}

fn rename_one_exec(base: &str, o: &Node, u: u64, free: &Vec<String>, taken: &Vec<String>) -> (r: Option<String>)
    requires
        texts(free@) == free_idents(o@, u),
        texts(taken@) == idents(o@),
    ensures
        opt_view(r) == rename_one(base@, o@, u),
{
    if contains_text(free, &base.to_string()) {
        Some(fresh_name(base, taken))
    } else {
        None
    }
}

/// Renames, in module `o`, the bindings that would capture its free
/// `__dirname`, `__filename` or `require` (tokens `u`).
pub fn hygiene_module(o: &Node, u: u64) -> (r: Node)
    ensures
        r@ == hygiene(o@, u),
{
    let mut free: Vec<String> = Vec::new();
    collect_free_idents(o, u, &mut free);
    proof { assert(texts(free@) =~= free_idents(o@, u)); }
    let mut taken: Vec<String> = Vec::new();
    collect_idents(o, &mut taken);
    proof { assert(texts(taken@) =~= idents(o@)); }
    let n = RenameNames {
        unresolved: u,
        dirname: rename_one_exec("__dirname", o, u, &free, &taken),
        filename: rename_one_exec("__filename", o, u, &free, &taken),
        require: rename_one_exec("require", o, u, &free, &taken),
        kept: collect_exported_decl_names(o),
    };
    renamed_node(&n, o)
}

} // verus!
