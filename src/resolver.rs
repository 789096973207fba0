//! Scope resolution: gives every identifier the token of the scope whose
//! declaration binds it, or the unresolved token when none does.
//!
//! The module, each function and arrow, each loop and each block open a
//! scope. A function or arrow declares its parameters and the `var`s of its
//! body; a loop the `let` or `const` of its head; a block its own `let` and
//! `const` bindings, functions and classes; the module its top-level
//! bindings, imports and `var`s. A function's name is declared where the
//! function stands.
use vstd::prelude::*;

use crate::syntax::{lemma_children_view, lemma_terms_push, mk, terms, with_children, Kind, Node, Term, TOP_LEVEL, UNRESOLVED};
use crate::text::{contains_text, eq_str, texts};

verus! {

/// A scope: the names it declares and its token.
pub struct Scope {
    pub names: Seq<Seq<char>>,
    pub token: u64,
}

/// The names bound by pattern `p`.
pub open spec fn pat_names(p: Term) -> Seq<Seq<char>>
    decreases p, 1int, 0int,
{
    if p.kind == Kind::Ident {
        seq![p.text]
    } else if p.kind == Kind::ObjectPat || p.kind == Kind::KeyValuePat {
        pat_names_upto(p, p.children.len() as int)
    } else if p.kind == Kind::AssignPat && p.children.len() > 0 {
        pat_names(p.children[0])
    } else {
        Seq::empty()
    }
}

pub open spec fn pat_names_upto(p: Term, k: int) -> Seq<Seq<char>>
    decreases p, 0int, k,
{
    if k <= 0 || k > p.children.len() {
        Seq::empty()
    } else {
        pat_names_upto(p, k - 1) + pat_names(p.children[k - 1])
    }
}

/// The names bound by the first child of each of the first `k` children of
/// `t` (the declarators of a declaration, the specifiers of an import).
pub open spec fn first_child_names(t: Term, k: int) -> Seq<Seq<char>>
    decreases k,
{
    if k <= 0 || k > t.children.len() {
        Seq::empty()
    } else {
        let c = t.children[k - 1];
        first_child_names(t, k - 1) + if c.children.len() > 0 { pat_names(c.children[0]) } else { Seq::empty() }
    }
}

/// A `var` declaration, which belongs to the enclosing function or module.
pub open spec fn is_var(s: Term) -> bool {
    s.kind == Kind::VarDecl && s.text == "var"@
}

/// The names that statement or module item `s` declares in the block or
/// module that holds it: `let` and `const` bindings, functions, classes and
/// imports, exported or not.
pub open spec fn stmt_names(s: Term) -> Seq<Seq<char>>
    decreases s,
{
    if (s.kind == Kind::VarDecl && !is_var(s)) || s.kind == Kind::ImportDecl {
        first_child_names(s, s.children.len() as int)
    } else if (s.kind == Kind::FnDecl || s.kind == Kind::Class) && s.children.len() > 0
        && s.children[0].kind == Kind::Ident {
        seq![s.children[0].text]
    } else if s.kind == Kind::ExportDecl && s.children.len() > 0 {
        stmt_names(s.children[0])
    } else {
        Seq::empty()
    }
}

/// The names declared by the first `k` statements of `t`.
pub open spec fn stmts_names(t: Term, k: int) -> Seq<Seq<char>>
    decreases k,
{
    if k <= 0 || k > t.children.len() {
        Seq::empty()
    } else {
        stmts_names(t, k - 1) + stmt_names(t.children[k - 1])
    }
}

/// The `var` names that `t` declares for the enclosing function or module:
/// those of nested statements too, but not those of nested functions.
pub open spec fn var_names(t: Term) -> Seq<Seq<char>>
    decreases t, 1int, 0int,
{
    if is_var(t) {
        first_child_names(t, t.children.len() as int)
    } else if t.kind == Kind::FnDecl || t.kind == Kind::Arrow {
        Seq::empty()
    } else {
        var_names_upto(t, t.children.len() as int)
    }
}

pub open spec fn var_names_upto(t: Term, k: int) -> Seq<Seq<char>>
    decreases t, 0int, k,
{
    if k <= 0 || k > t.children.len() {
        Seq::empty()
    } else {
        var_names_upto(t, k - 1) + var_names(t.children[k - 1])
    }
}

/// The index of the parameter list of a function or arrow node.
pub open spec fn params_index(t: Term) -> int {
    if t.kind == Kind::FnDecl { 1 } else { 0 }
}

/// The names of the parameters of function or arrow `t`.
pub open spec fn param_names(t: Term) -> Seq<Seq<char>> {
    let i = params_index(t);
    if i < t.children.len() && t.children[i].kind == Kind::Params {
        pat_names_upto(t.children[i], t.children[i].children.len() as int)
    } else {
        Seq::empty()
    }
}

/// The `var` names of the body of function or arrow `t`.
pub open spec fn body_var_names(t: Term) -> Seq<Seq<char>> {
    let i = params_index(t) + 1;
    if i < t.children.len() { var_names(t.children[i]) } else { Seq::empty() }
}

/// The names declared by the scope that `t` opens: a function's parameters
/// and the `var`s of its body; a loop's `let` or `const` head; a block's own
/// `let`, `const`, functions and classes.
pub open spec fn scope_names(t: Term) -> Seq<Seq<char>> {
    if t.kind == Kind::FnDecl || t.kind == Kind::Arrow {
        param_names(t) + body_var_names(t)
    } else if t.kind == Kind::For || t.kind == Kind::ForIn {
        if t.children.len() > 0 { stmt_names(t.children[0]) } else { Seq::empty() }
    } else {
        stmts_names(t, t.children.len() as int)
    }
}

pub open spec fn opens_scope(t: Term) -> bool {
    t.kind == Kind::Block || t.kind == Kind::FnDecl || t.kind == Kind::Arrow || t.kind == Kind::For
        || t.kind == Kind::ForIn
}

/// The token of the innermost scope of `env` that declares `name`.
pub open spec fn resolve_name(env: Seq<Scope>, name: Seq<char>) -> u64
    decreases env.len(),
{
    if env.len() == 0 {
        UNRESOLVED
    } else if env.last().names.contains(name) {
        env.last().token
    } else {
        resolve_name(env.drop_last(), name)
    }
}

pub open spec fn bump(next: u64) -> u64 {
    if next < u64::MAX { (next + 1) as u64 } else { next }
}

/// The resolution of `t` in environment `env`, with `next` the token of the
/// next scope opened; also the token that follows.
pub open spec fn resolve(env: Seq<Scope>, next: u64, t: Term) -> (Term, u64)
    decreases t, 1int, 0int,
{
    if t.kind == Kind::Ident {
        (Term { ctxt: resolve_name(env, t.text), ..t }, next)
    } else if opens_scope(t) {
        let inner = env.push(Scope { names: scope_names(t), token: next });
        let r = resolve_upto(env, inner, bump(next), t, t.children.len() as int);
        (with_children(t, r.0), r.1)
    } else {
        let r = resolve_upto(env, env, next, t, t.children.len() as int);
        (with_children(t, r.0), r.1)
    }
}

/// The first `k` children of `t` resolved in turn; a function's name is
/// resolved in the enclosing scope `outer`, everything else in `inner`.
pub open spec fn resolve_upto(outer: Seq<Scope>, inner: Seq<Scope>, next: u64, t: Term, k: int) -> (Seq<Term>, u64)
    decreases t, 0int, k,
{
    if k <= 0 || k > t.children.len() {
        (Seq::empty(), next)
    } else {
        let prev = resolve_upto(outer, inner, next, t, k - 1);
        let env = if t.kind == Kind::FnDecl && k == 1 { outer } else { inner };
        let c = resolve(env, prev.1, t.children[k - 1]);
        (prev.0.push(c.0), c.1)
    }
}

/// The names that module `m` declares at its top level.
pub open spec fn module_names(m: Term) -> Seq<Seq<char>> {
    stmts_names(m, m.children.len() as int) + var_names_upto(m, m.children.len() as int)
}

/// The resolution of module `m`: its own declarations get the top-level
/// token, nested scopes fresh tokens from `TOP_LEVEL + 1` on.
pub open spec fn resolve_module(m: Term) -> Term {
    let top = seq![Scope { names: module_names(m), token: TOP_LEVEL }];
    with_children(m, resolve_upto(top, top, (TOP_LEVEL + 1) as u64, m, m.children.len() as int).0)
}

struct ScopeEntry {
    names: Vec<String>,
    token: u64,
}

impl ScopeEntry {
    spec fn scope(&self) -> Scope {
        Scope { names: texts(self.names@), token: self.token }
    }
}

spec fn scopes(v: Seq<ScopeEntry>) -> Seq<Scope> {
    v.map_values(|e: ScopeEntry| e.scope())
}

fn collect_pat_names(p: &Node, acc: &mut Vec<String>)
    ensures
        texts(final(acc)@) == texts(old(acc)@) + pat_names(p@),
    decreases p,
{
    proof { lemma_children_view(*p); }
    let ghost start = texts(acc@);
    if p.kind == Kind::Ident {
        acc.push(p.text.clone());
        proof { assert(texts(acc@) =~= start + pat_names(p@)); }
    } else if p.kind == Kind::ObjectPat || p.kind == Kind::KeyValuePat {
        let mut i: usize = 0;
        proof { assert(texts(acc@) =~= start + pat_names_upto(p@, 0)); }
        while i < p.children.len()
            invariant
                i <= p.children.len(),
                p@.children.len() == p.children.len(),
                forall|j: int| 0 <= j < p.children.len() ==> #[trigger] p@.children[j] == p.children[j]@,
                texts(acc@) == start + pat_names_upto(p@, i as int),
            decreases p.children.len() - i,
        {
            proof {
                broadcast use vstd::std_specs::vec::axiom_vec_index_decreases;
                assert(decreases_to!(*p => p.children));
            }
            collect_pat_names(&p.children[i], acc);
            proof { assert(texts(acc@) =~= start + pat_names_upto(p@, i + 1)); }
            i += 1;
        }
    } else if p.kind == Kind::AssignPat && p.children.len() > 0 {
        proof {
            broadcast use vstd::std_specs::vec::axiom_vec_index_decreases;
            assert(decreases_to!(*p => p.children));
        }
        collect_pat_names(&p.children[0], acc);
    } else {
        proof { assert(texts(acc@) =~= start + pat_names(p@)); }
    }
}

fn collect_first_child_names(t: &Node, acc: &mut Vec<String>)
    ensures
        texts(final(acc)@) == texts(old(acc)@) + first_child_names(t@, t@.children.len() as int),
{
    proof { lemma_children_view(*t); }
    let ghost start = texts(acc@);
    let mut i: usize = 0;
    proof { assert(texts(acc@) =~= start + first_child_names(t@, 0)); }
    while i < t.children.len()
        invariant
            i <= t.children.len(),
            t@.children.len() == t.children.len(),
            forall|j: int| 0 <= j < t.children.len() ==> #[trigger] t@.children[j] == t.children[j]@,
            texts(acc@) == start + first_child_names(t@, i as int),
        decreases t.children.len() - i,
    {
        let c = &t.children[i];
        proof { lemma_children_view(*c); }
        let ghost before = texts(acc@);
        if c.children.len() > 0 {
            collect_pat_names(&c.children[0], acc);
        }
        proof { assert(texts(acc@) =~= start + first_child_names(t@, i + 1)); }
        i += 1;
    }
}

pub(crate) fn collect_stmt_names(s: &Node, acc: &mut Vec<String>)
    ensures
        texts(final(acc)@) == texts(old(acc)@) + stmt_names(s@),
    decreases s,
{
    proof { lemma_children_view(*s); }
    let ghost start = texts(acc@);
    if (s.kind == Kind::VarDecl && !eq_str(&s.text, "var")) || s.kind == Kind::ImportDecl {
        collect_first_child_names(s, acc);
    } else if (s.kind == Kind::FnDecl || s.kind == Kind::Class) && s.children.len() > 0
        && s.children[0].kind == Kind::Ident {
        proof { lemma_children_view(s.children[0]); }
        acc.push(s.children[0].text.clone());
        proof { assert(texts(acc@) =~= start + stmt_names(s@)); }
    } else if s.kind == Kind::ExportDecl && s.children.len() > 0 {
        proof {
            broadcast use vstd::std_specs::vec::axiom_vec_index_decreases;
            assert(decreases_to!(*s => s.children));
        }
        collect_stmt_names(&s.children[0], acc);
    } else {
        proof { assert(texts(acc@) =~= start + stmt_names(s@)); }
    }
}

fn collect_stmts_names(t: &Node) -> (r: Vec<String>)
    ensures
        texts(r@) == stmts_names(t@, t@.children.len() as int),
{
    proof { lemma_children_view(*t); }
    let mut acc: Vec<String> = Vec::new();
    let mut i: usize = 0;
    proof { assert(texts(acc@) =~= stmts_names(t@, 0)); }
    while i < t.children.len()
        invariant
            i <= t.children.len(),
            t@.children.len() == t.children.len(),
            forall|j: int| 0 <= j < t.children.len() ==> #[trigger] t@.children[j] == t.children[j]@,
            texts(acc@) == stmts_names(t@, i as int),
        decreases t.children.len() - i,
    {
        collect_stmt_names(&t.children[i], &mut acc);
        proof { assert(texts(acc@) =~= stmts_names(t@, i + 1)); }
        i += 1;
    }
    acc
}

fn collect_var_names(t: &Node, acc: &mut Vec<String>)
    ensures
        texts(final(acc)@) == texts(old(acc)@) + var_names(t@),
    decreases t, 1int,
{
    proof { lemma_children_view(*t); }
    let ghost start = texts(acc@);
    if t.kind == Kind::VarDecl && eq_str(&t.text, "var") {
        collect_first_child_names(t, acc);
    } else if t.kind == Kind::FnDecl || t.kind == Kind::Arrow {
        proof { assert(texts(acc@) =~= start + var_names(t@)); }
    } else {
        proof {
            broadcast use vstd::std_specs::vec::axiom_vec_index_decreases;
            assert(decreases_to!(*t => t.children));
        }
        collect_var_names_upto(t, acc);
    }
}

/// Appends the `var` names of the children of `t`.
fn collect_var_names_upto(t: &Node, acc: &mut Vec<String>)
    ensures
        texts(final(acc)@) == texts(old(acc)@) + var_names_upto(t@, t@.children.len() as int),
    decreases t, 0int,
{
    proof { lemma_children_view(*t); }
    let ghost start = texts(acc@);
    let mut i: usize = 0;
    proof { assert(texts(acc@) =~= start + var_names_upto(t@, 0)); }
    while i < t.children.len()
        invariant
            i <= t.children.len(),
            t@.children.len() == t.children.len(),
            forall|j: int| 0 <= j < t.children.len() ==> #[trigger] t@.children[j] == t.children[j]@,
            texts(acc@) == start + var_names_upto(t@, i as int),
        decreases t.children.len() - i,
    {
        proof {
            broadcast use vstd::std_specs::vec::axiom_vec_index_decreases;
            assert(decreases_to!(*t => t.children));
        }
        collect_var_names(&t.children[i], acc);
        proof { assert(texts(acc@) =~= start + var_names_upto(t@, i + 1)); }
        i += 1;
    }
}

fn collect_scope_names(t: &Node) -> (r: Vec<String>)
    ensures
        texts(r@) == scope_names(t@),
{
    proof { lemma_children_view(*t); }
    if t.kind == Kind::FnDecl || t.kind == Kind::Arrow {
        let i: usize = if t.kind == Kind::FnDecl { 1 } else { 0 };
        let mut acc: Vec<String> = Vec::new();
        if i < t.children.len() && t.children[i].kind == Kind::Params {
            let params = &t.children[i];
            proof { lemma_children_view(*params); }
            let mut j: usize = 0;
            proof { assert(texts(acc@) =~= pat_names_upto(params@, 0)); }
            while j < params.children.len()
                invariant
                    j <= params.children.len(),
                    params@.children.len() == params.children.len(),
                    forall|x: int| 0 <= x < params.children.len() ==> #[trigger] params@.children[x] == params.children[x]@,
                    texts(acc@) == pat_names_upto(params@, j as int),
                decreases params.children.len() - j,
            {
                collect_pat_names(&params.children[j], &mut acc);
                proof { assert(texts(acc@) =~= pat_names_upto(params@, j + 1)); }
                j += 1;
            }
        } else {
            proof { assert(texts(acc@) =~= Seq::<Seq<char>>::empty()); }
        }
        let ghost params_part = texts(acc@);
        if i + 1 < t.children.len() {
            collect_var_names(&t.children[i + 1], &mut acc);
        } else {
            proof { assert(texts(acc@) =~= params_part + Seq::<Seq<char>>::empty()); }
        }
        acc
    } else if t.kind == Kind::For || t.kind == Kind::ForIn {
        let mut acc: Vec<String> = Vec::new();
        if t.children.len() > 0 {
            collect_stmt_names(&t.children[0], &mut acc);
            proof { assert(texts(acc@) =~= scope_names(t@)); }
        } else {
            proof { assert(texts(acc@) =~= scope_names(t@)); }
        }
        acc
    } else {
        collect_stmts_names(t)
    }
}

fn resolve_name_exec(env: &Vec<ScopeEntry>, name: &String) -> (r: u64)
    ensures
        r == resolve_name(scopes(env@), name@),
{
    let mut k: usize = env.len();
    proof { assert(env@.subrange(0, k as int) =~= env@); }
    while k > 0
        invariant
            k <= env@.len(),
            resolve_name(scopes(env@), name@) == resolve_name(scopes(env@.subrange(0, k as int)), name@),
        decreases k,
    {
        let e = &env[k - 1];
        proof {
            assert(scopes(env@.subrange(0, k as int)).last() == e.scope());
            assert(scopes(env@.subrange(0, k as int)).drop_last() =~= scopes(env@.subrange(0, k - 1)));
        }
        if contains_text(&e.names, name) {
            return e.token;
        }
        k -= 1;
    }
    proof { assert(scopes(env@.subrange(0, 0)) =~= Seq::<Scope>::empty()); }
    UNRESOLVED
}

fn resolve_node(env: &mut Vec<ScopeEntry>, next: u64, t: &Node) -> (r: (Node, u64))
    ensures
        final(env)@ == old(env)@,
        (r.0@, r.1) == resolve(scopes(old(env)@), next, t@),
    decreases t,
{
    proof { lemma_children_view(*t); }
    if t.kind == Kind::Ident {
        let ctxt = resolve_name_exec(env, &t.text);
        return (copy_with_ctxt(t, ctxt), next);
    }
    let ghost env0 = env@;
    let ghost outer = scopes(env@);
    let opens = t.kind == Kind::Block || t.kind == Kind::FnDecl || t.kind == Kind::Arrow || t.kind == Kind::For
        || t.kind == Kind::ForIn;
    let ghost inner = if opens { outer.push(Scope { names: scope_names(t@), token: next }) } else { outer };
    let start = if opens { bump_exec(next) } else { next };
    let mut out: Vec<Node> = Vec::new();
    let mut i: usize = 0;
    let mut n = start;
    proof { assert(terms(out@) =~= resolve_upto(outer, inner, start, t@, 0).0); }
    if opens && t.kind == Kind::FnDecl && t.children.len() > 0 {
        // A function's name belongs to the enclosing scope.
        proof {
            broadcast use vstd::std_specs::vec::axiom_vec_index_decreases;
            assert(decreases_to!(*t => t.children));
        }
        let (x, n1) = resolve_node(env, n, &t.children[0]);
        proof { lemma_terms_push(out@, x); }
        out.push(x);
        n = n1;
        i = 1;
        proof { assert(terms(out@) =~= resolve_upto(outer, inner, start, t@, 1).0); }
    }
    if opens {
        let names = collect_scope_names(t);
        env.push(ScopeEntry { names, token: next });
        proof { assert(scopes(env@) =~= inner); }
    } else {
        proof { assert(scopes(env@) =~= inner); }
    }
    let ghost env1 = env@;
    while i < t.children.len()
        invariant
            i <= t.children.len(),
            t@.children.len() == t.children.len(),
            forall|j: int| 0 <= j < t.children.len() ==> #[trigger] t@.children[j] == t.children[j]@,
            env@ == env1,
            scopes(env1) == inner,
            t.kind == Kind::FnDecl && t.children.len() > 0 ==> i >= 1,
            i == 0 ==> n == start,
            terms(out@) == resolve_upto(outer, inner, start, t@, i as int).0,
            n == resolve_upto(outer, inner, start, t@, i as int).1,
        decreases t.children.len() - i,
    {
        proof {
            broadcast use vstd::std_specs::vec::axiom_vec_index_decreases;
            assert(decreases_to!(*t => t.children));
        }
        let (x, n1) = resolve_node(env, n, &t.children[i]);
        proof { lemma_terms_push(out@, x); }
        out.push(x);
        n = n1;
        i += 1;
    }
    if opens {
        env.pop();
        proof { assert(env@ =~= env0); }
    }
    (mk(t.kind, t.text.as_str(), t.ctxt, out), n)
}

/// Resolves module `m`, and gives the token of unresolved occurrences.
pub fn resolve_module_tree(m: &Node) -> (r: (Node, u64))
    ensures
        r.0@ == resolve_module(m@),
        r.1 == UNRESOLVED,
{
    proof { lemma_children_view(*m); }
    let mut names = collect_stmts_names(m);
    collect_var_names_upto(m, &mut names);
    let mut env: Vec<ScopeEntry> = Vec::new();
    env.push(ScopeEntry { names, token: TOP_LEVEL });
    let ghost top = scopes(env@);
    proof { assert(top =~= seq![Scope { names: module_names(m@), token: TOP_LEVEL }]); }
    let mut out: Vec<Node> = Vec::new();
    let mut i: usize = 0;
    let mut n: u64 = TOP_LEVEL + 1;
    let ghost env1 = env@;
    proof { assert(terms(out@) =~= resolve_upto(top, top, n, m@, 0).0); }
    while i < m.children.len()
        invariant
            i <= m.children.len(),
            m@.children.len() == m.children.len(),
            forall|j: int| 0 <= j < m.children.len() ==> #[trigger] m@.children[j] == m.children[j]@,
            env@ == env1,
            scopes(env1) == top,
            top == seq![Scope { names: module_names(m@), token: TOP_LEVEL }],
            terms(out@) == resolve_upto(top, top, (TOP_LEVEL + 1) as u64, m@, i as int).0,
            n == resolve_upto(top, top, (TOP_LEVEL + 1) as u64, m@, i as int).1,
        decreases m.children.len() - i,
    {
        let (x, n1) = resolve_node(&mut env, n, &m.children[i]);
        proof { lemma_terms_push(out@, x); }
        out.push(x);
        n = n1;
        i += 1;
    }
    (mk(m.kind, m.text.as_str(), m.ctxt, out), UNRESOLVED)
}

fn bump_exec(next: u64) -> (r: u64)
    ensures
        r == bump(next),
{
    if next < u64::MAX { next + 1 } else { next }
}

fn copy_with_ctxt(t: &Node, ctxt: u64) -> (r: Node)
    ensures
        r@ == (Term { ctxt, ..t@ }),
{
    crate::syntax::copy_tree(t).with_ctxt(ctxt)
}

} // verus!
