//! The program tree.
//!
//! A tree is a uniform node type: every node has a kind, a text payload, a
//! scope-identity token (meaningful on identifiers) and an ordered list of
//! children. The layout of the children for each kind:
//!
//! - `Module`, `Block`, `Array`, `Object`, `Params`, `ObjectPat`: the elements.
//! - `Ident`: none; `text` is the name, `ctxt` the scope token.
//! - `Str`, `Num`, `Bool`, `Null`, `Empty`, `Invalid`: none; `text` holds
//!   the literal's value or source text.
//! - `MetaProp`: none; `text` is the meta-property, such as `import.meta`.
//! - `Prop`: `[value]`, `text` is the key.
//! - `Member`: `[object]`, `text` is the property name.
//! - `Call`, `New`: `[callee, args..]`. `DynImport`: `[args..]`.
//! - `TypeOf`: `[argument]`.
//! - `Arrow`: `[Params, Block]`. `FnDecl`: `[Ident, Params, Block]`.
//! - `KeyValuePat`: `[pattern]`, `text` is the key.
//! - `AssignPat`: `[Ident]` or `[Ident, default]`.
//! - `ExprStmt`: `[expr]`. `Return`: `[]` or `[expr]`.
//! - `VarDecl`: `[Declarator..]`, `text` is `var`, `let` or `const`.
//! - `Declarator`: `[pattern]` or `[pattern, init]`.
//! - `ImportDecl`: `[specifiers..]`, `text` is the module source.
//! - `ImportNamed`: `[local Ident]`, `text` is the imported name, empty when
//!   it is the local name. `ImportDefault`, `ImportStar`: `[local Ident]`.
//! - `ExportAll`: none, `text` is the source. `ExportFrom`: `[ExportSpec..]`,
//!   `text` is the source. `ExportNamed`: `[ExportSpec..]` of local
//!   bindings. `ExportSpec`: `[Ident]`, `text` the exported name.
//!   `ExportDecl`: `[declaration]`.
//! - `Binary`: `[left, right]`, `Assign`: `[target, value]`, `Unary` and
//!   `Update`: `[argument]`; `text` is the operator.
//! - `Cond`: `[test, consequent, alternate]`. `Template`: `[expressions..]`,
//!   `text` holds the literal parts.
//! - `If`: `[test, consequent]` or `[test, consequent, alternate]`.
//!   `While`: `[test, body]`. `For`: `[init, test, update, body]`, with an
//!   `Empty` node for an absent part. `ForIn`: `[left, right, body]`, `text`
//!   is `in` or `of`.
//! - `Class`: `[Ident, members..]`; its methods are `FnDecl` or `Arrow` nodes.
//! - `Other`: any other construct, `[parts..]`; every pass walks through it.
use vstd::prelude::*;

use crate::text::texts;

verus! {

#[derive(PartialEq, Eq, Structural, Clone, Copy, Debug)]
pub enum Kind {
    Module,
    Ident,
    Str,
    Num,
    Bool,
    Null,
    Array,
    Object,
    Prop,
    Member,
    MetaProp,
    Call,
    New,
    DynImport,
    TypeOf,
    Arrow,
    Params,
    ObjectPat,
    KeyValuePat,
    AssignPat,
    Invalid,
    ExprStmt,
    VarDecl,
    Declarator,
    Block,
    FnDecl,
    Return,
    Empty,
    ImportDecl,
    ImportNamed,
    ImportDefault,
    ImportStar,
    ExportAll,
    ExportFrom,
    ExportNamed,
    ExportSpec,
    ExportDecl,
    Binary,
    Assign,
    Unary,
    Update,
    Cond,
    Template,
    If,
    While,
    For,
    ForIn,
    Class,
    Other,
}

/// A node of the program tree.
#[derive(Debug, PartialEq, Eq)]
pub struct Node {
    pub kind: Kind,
    pub text: String,
    pub ctxt: u64,
    pub children: Vec<Node>,
}

/// The mathematical value of a node.
pub struct Term {
    pub kind: Kind,
    pub text: Seq<char>,
    pub ctxt: u64,
    pub children: Seq<Term>,
}

pub open spec fn term_of(n: Node) -> Term
    decreases n, 1int, 0int,
{
    Term { kind: n.kind, text: n.text@, ctxt: n.ctxt, children: terms_upto(n, n.children.len() as int) }
}

/// The values of the first `k` children of `n`.
pub open spec fn terms_upto(n: Node, k: int) -> Seq<Term>
    decreases n, 0int, k,
{
    if k <= 0 || k > n.children.len() {
        Seq::empty()
    } else {
        terms_upto(n, k - 1).push(term_of(n.children[k - 1]))
    }
}

impl View for Node {
    type V = Term;

    open spec fn view(&self) -> Term {
        term_of(*self)
    }
}

/// The values of a sequence of nodes.
pub open spec fn terms(s: Seq<Node>) -> Seq<Term> {
    s.map_values(|c: Node| c@)
}

pub proof fn lemma_terms_upto(n: Node, k: int)
    requires
        0 <= k <= n.children.len(),
    ensures
        terms_upto(n, k) == terms(n.children@.subrange(0, k)),
    decreases k,
{
    if k > 0 {
        lemma_terms_upto(n, k - 1);
        assert(terms(n.children@.subrange(0, k)) =~= terms(n.children@.subrange(0, k - 1)).push(
            n.children[k - 1]@,
        ));
    } else {
        assert(terms(n.children@.subrange(0, k)) =~= Seq::empty());
    }
}

/// The children of a node's value are the values of its children.
pub proof fn lemma_children_view(n: Node)
    ensures
        n@.children == terms(n.children@),
        n@.children.len() == n.children.len(),
        forall|i: int| 0 <= i < n.children.len() ==> #[trigger] n@.children[i] == n.children[i]@,
{
    lemma_terms_upto(n, n.children.len() as int);
    assert(n.children@.subrange(0, n.children.len() as int) =~= n.children@);
}

pub proof fn lemma_terms_push(s: Seq<Node>, x: Node)
    ensures
        terms(s.push(x)) == terms(s).push(x@),
{
    assert(terms(s.push(x)) =~= terms(s).push(x@));
}

/// Builds a node from its parts.
pub fn mk(kind: Kind, text: &str, ctxt: u64, children: Vec<Node>) -> (r: Node)
    ensures
        r.kind == kind,
        r.text@ == text@,
        r.ctxt == ctxt,
        r.children == children,
        r@ == (Term { kind, text: text@, ctxt, children: terms(children@) }),
{
    let r = Node { kind, text: text.to_string(), ctxt, children };
    proof { lemma_children_view(r); }
    r
}

impl Node {
    /// The node with its scope token replaced.
    pub fn with_ctxt(self, ctxt: u64) -> (r: Node)
        ensures
            r@ == (Term { ctxt, ..self@ }),
    {
        let r = Node { ctxt, ..self };
        proof {
            lemma_children_view(self);
            lemma_children_view(r);
        }
        r
    }
}

/// An exact copy of a tree.
pub fn copy_tree(e: &Node) -> (r: Node)
    ensures
        r@ == e@,
    decreases e,
{
    let mut b: Vec<Node> = Vec::new();
    let mut i: usize = 0;
    proof { lemma_children_view(*e); }
    while i < e.children.len()
        invariant
            i <= e.children.len(),
            e@.children == terms(e.children@),
            terms(b@) == e@.children.subrange(0, i as int),
        decreases e.children.len() - i,
    {
        proof {
            broadcast use vstd::std_specs::vec::axiom_vec_index_decreases;
            assert(decreases_to!(*e => e.children));
        }
        let x = copy_tree(&e.children[i]);
        proof { lemma_terms_push(b@, x); }
        b.push(x);
        i += 1;
        proof {
            assert(e@.children.subrange(0, i as int) =~= e@.children.subrange(0, i - 1).push(e.children[i - 1]@));
        }
    }
    let r = Node { kind: e.kind, text: e.text.clone(), ctxt: e.ctxt, children: b };
    proof {
        lemma_children_view(r);
        assert(e@.children.subrange(0, i as int) =~= e@.children);
    }
    r
}

/// The scope token of occurrences that no declaration binds.
pub const UNRESOLVED: u64 = 0;

/// The scope token of the module's own top-level bindings.
pub const TOP_LEVEL: u64 = 1;

pub open spec fn leaf(kind: Kind, text: Seq<char>, ctxt: u64) -> Term {
    Term { kind, text, ctxt, children: Seq::empty() }
}

pub open spec fn branch(kind: Kind, text: Seq<char>, children: Seq<Term>) -> Term {
    Term { kind, text, ctxt: 0, children }
}

/// `t` with its children replaced.
pub open spec fn with_children(t: Term, children: Seq<Term>) -> Term {
    Term { kind: t.kind, text: t.text, ctxt: t.ctxt, children }
}

/// The names of all identifiers of `t`, in document order.
pub open spec fn idents(t: Term) -> Seq<Seq<char>>
    decreases t, 1int, 0int,
{
    (if t.kind == Kind::Ident { seq![t.text] } else { Seq::empty() }) + idents_upto(t, t.children.len() as int)
}

pub open spec fn idents_upto(t: Term, k: int) -> Seq<Seq<char>>
    decreases t, 0int, k,
{
    if k <= 0 || k > t.children.len() {
        Seq::empty()
    } else {
        idents_upto(t, k - 1) + idents(t.children[k - 1])
    }
}

/// Appends the names of all identifiers of `t` to `acc`.
pub fn collect_idents(t: &Node, acc: &mut Vec<String>)
    ensures
        texts(final(acc)@) == texts(old(acc)@) + idents(t@),
    decreases t,
{
    let ghost start = texts(acc@);
    proof { lemma_children_view(*t); }
    if t.kind == Kind::Ident {
        acc.push(t.text.clone());
        proof { assert(texts(acc@) =~= start + seq![t@.text]); }
    } else {
        proof { assert(texts(acc@) =~= start + Seq::<Seq<char>>::empty()); }
    }
    let ghost head = texts(acc@);
    let mut i: usize = 0;
    while i < t.children.len()
        invariant
            i <= t.children.len(),
            t@.children.len() == t.children.len(),
            forall|j: int| 0 <= j < t.children.len() ==> #[trigger] t@.children[j] == t.children[j]@,
            texts(acc@) == head + idents_upto(t@, i as int),
        decreases t.children.len() - i,
    {
        proof {
            broadcast use vstd::std_specs::vec::axiom_vec_index_decreases;
            assert(decreases_to!(*t => t.children));
        }
        let ghost before = texts(acc@);
        collect_idents(&t.children[i], acc);
        proof {
            assert(texts(acc@) =~= head + idents_upto(t@, i + 1));
        }
        i += 1;
    }
    proof {
        assert(start + idents(t@) =~= head + idents_upto(t@, t@.children.len() as int));
    }
}

} // verus!
