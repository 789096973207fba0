//! Compile-time constant folding: replaces configured identifiers, member
//! paths and `typeof` expressions by literals.
//!
//! A configured value is a literal tree: `Null`, `Str`, `Bool`, `Num` (its
//! text is the number as written), `Array` of values, or `Object` of `Prop`
//! nodes whose text is the key and whose child is the value.
use vstd::prelude::*;

use crate::syntax::{
    branch, leaf, lemma_children_view, lemma_terms_push, mk, terms, with_children, Kind, Node, Term,
};
use crate::text::{eq_str, join2};

verus! {

/// The value of a definition table.
pub open spec fn entries_of(v: Seq<(String, Node)>) -> Seq<(Seq<char>, Term)> {
    v.map_values(|e: (String, Node)| (e.0@, e.1@))
}

pub open spec fn null_term() -> Term {
    leaf(Kind::Null, Seq::empty(), 0)
}

/// The value of the first of the first `k` entries whose key is `key`.
pub open spec fn lookup_key(tab: Seq<(Seq<char>, Term)>, key: Seq<char>, k: int) -> Option<Term>
    decreases k,
{
    if k <= 0 || k > tab.len() {
        None
    } else {
        match lookup_key(tab, key, k - 1) {
            Some(v) => Some(v),
            None => if tab[k - 1].0 == key { Some(tab[k - 1].1) } else { None },
        }
    }
}

/// The value configured for `key`; null when there is none.
pub open spec fn value_of(tab: Seq<(Seq<char>, Term)>, key: Seq<char>) -> Term {
    match lookup_key(tab, key, tab.len() as int) {
        Some(v) => v,
        None => null_term(),
    }
}

/// The value of property `key` among the first `k` properties of object
/// `v`; null when there is none.
pub open spec fn prop_upto(v: Term, key: Seq<char>, k: int) -> Option<Term>
    decreases k,
{
    if k <= 0 || k > v.children.len() {
        None
    } else {
        match prop_upto(v, key, k - 1) {
            Some(x) => Some(x),
            None => {
                let p = v.children[k - 1];
                if p.kind == Kind::Prop && p.text == key && p.children.len() > 0 {
                    Some(p.children[0])
                } else {
                    None
                }
            },
        }
    }
}

/// `v[key]`: the property of an object value, null for anything else.
pub open spec fn index_value(v: Term, key: Seq<char>) -> Term {
    if v.kind != Kind::Object {
        null_term()
    } else {
        match prop_upto(v, key, v.children.len() as int) {
            Some(x) => x,
            None => null_term(),
        }
    }
}

/// The dotted path of a member chain such as `a.b.c`, rooted at an
/// identifier; none for a chain with any other root.
pub open spec fn member_path(t: Term) -> Option<Seq<Seq<char>>>
    decreases t,
{
    if t.children.len() > 0 {
        let o = t.children[0];
        if o.kind == Kind::Ident {
            Some(seq![o.text, t.text])
        } else if o.kind == Kind::Member {
            match member_path(o) {
                Some(p) => Some(p.push(t.text)),
                None => None,
            }
        } else {
            None
        }
    } else {
        None
    }
}

/// The segments of `path` joined by dots.
pub open spec fn join_dots(path: Seq<Seq<char>>) -> Seq<char>
    decreases path.len(),
{
    if path.len() == 0 {
        Seq::empty()
    } else if path.len() == 1 {
        path[0]
    } else {
        join_dots(path.drop_last()) + "."@ + path.last()
    }
}

/// The value at the first `k` segments of `path`: the first segment is
/// looked up in the table, each later one indexes the value reached so far.
pub open spec fn walk(tab: Seq<(Seq<char>, Term)>, path: Seq<Seq<char>>, k: int) -> Term
    decreases k,
{
    if k <= 0 || k > path.len() {
        null_term()
    } else if k == 1 {
        value_of(tab, path[0])
    } else {
        index_value(walk(tab, path, k - 1), path[k - 1])
    }
}

/// The value configured for member chain `t`: its exact dotted path, or else
/// the value at that path through nested objects; null for a chain that is
/// not rooted at an identifier.
pub open spec fn path_value(tab: Seq<(Seq<char>, Term)>, t: Term) -> Term {
    match member_path(t) {
        None => null_term(),
        Some(path) => {
            let exact = value_of(tab, join_dots(path));
            if exact.kind != Kind::Null { exact } else { walk(tab, path, path.len() as int) }
        },
    }
}

/// The literal that value `v` converts to: none for null (and for anything
/// that is not a value); arrays and objects keep the members that convert.
pub open spec fn literal_of(v: Term) -> Option<Term>
    decreases v, 1int, 0int,
{
    if v.kind == Kind::Str || v.kind == Kind::Bool || v.kind == Kind::Num {
        Some(leaf(v.kind, v.text, 0))
    } else if v.kind == Kind::Array || v.kind == Kind::Object {
        Some(branch(v.kind, Seq::empty(), literals_upto(v, v.children.len() as int)))
    } else {
        None
    }
}

/// The converted members among the first `k` of array or object `v`.
pub open spec fn literals_upto(v: Term, k: int) -> Seq<Term>
    decreases v, 0int, k,
{
    if k <= 0 || k > v.children.len() {
        Seq::empty()
    } else {
        let prev = literals_upto(v, k - 1);
        let c = v.children[k - 1];
        if v.kind == Kind::Array {
            match literal_of(c) {
                Some(x) => prev.push(x),
                None => prev,
            }
        } else if c.kind == Kind::Prop && c.children.len() > 0 {
            match literal_of(c.children[0]) {
                Some(x) => prev.push(branch(Kind::Prop, c.text, seq![x])),
                None => prev,
            }
        } else {
            prev
        }
    }
}

/// Child `i` of a node of kind `parent` is a binding or an assignment
/// target, not a reference.
pub open spec fn binding_position(parent: Kind, i: int) -> bool {
    parent == Kind::Params || parent == Kind::ObjectPat || parent == Kind::KeyValuePat
        || parent == Kind::ImportNamed || parent == Kind::ImportDefault || parent == Kind::ImportStar
        || parent == Kind::ExportSpec
        || (i == 0 && (parent == Kind::AssignPat || parent == Kind::Declarator || parent == Kind::FnDecl
            || parent == Kind::Assign || parent == Kind::Update || parent == Kind::ForIn || parent == Kind::Class))
}

/// The define rewrite of `t`; `reference` says whether `t` stands where an
/// expression does.
pub open spec fn define(tab: Seq<(Seq<char>, Term)>, t: Term, reference: bool) -> Term
    decreases t, 1int, 0int,
{
    if t.kind == Kind::Member && reference && literal_of(path_value(tab, t)) is Some {
        literal_of(path_value(tab, t))->0
    } else if t.kind == Kind::Ident {
        if reference && literal_of(value_of(tab, t.text)) is Some {
            literal_of(value_of(tab, t.text))->0
        } else {
            t
        }
    } else {
        let cs = define_upto(tab, t, t.children.len() as int);
        if t.kind == Kind::TypeOf && cs.len() > 0 && cs[0].kind == Kind::Ident
            && literal_of(value_of(tab, "typeof "@ + cs[0].text)) is Some {
            literal_of(value_of(tab, "typeof "@ + cs[0].text))->0
        } else {
            with_children(t, cs)
        }
    }
}

pub open spec fn define_upto(tab: Seq<(Seq<char>, Term)>, t: Term, k: int) -> Seq<Term>
    decreases t, 0int, k,
{
    if k <= 0 || k > t.children.len() {
        Seq::empty()
    } else {
        define_upto(tab, t, k - 1).push(define(tab, t.children[k - 1], !binding_position(t.kind, k - 1)))
    }
}

/// The value a lookup reached: a configured value, or null.
pub open spec fn val(v: Option<&Node>) -> Term {
    match v {
        Some(n) => n@,
        None => null_term(),
    }
}

fn is_null(v: Option<&Node>) -> (r: bool)
    ensures
        r == (val(v).kind == Kind::Null),
{
    match v {
        Some(n) => {
            proof { lemma_children_view(*n); }
            n.kind == Kind::Null
        },
        None => true,
    }
}

fn lookup_value<'a>(tab: &'a Vec<(String, Node)>, key: &String) -> (r: Option<&'a Node>)
    ensures
        val(r) == value_of(entries_of(tab@), key@),
{
    let ghost e = entries_of(tab@);
    let mut k: usize = 0;
    while k < tab.len()
        invariant
            k <= tab@.len(),
            e == entries_of(tab@),
            lookup_key(e, key@, k as int) is None,
        decreases tab@.len() - k,
    {
        if tab[k].0 == *key {
            proof {
                assert(lookup_key(e, key@, k + 1) == Some(tab@[k as int].1@));
                lemma_lookup_key_stays(e, key@, k + 1, e.len() as int);
            }
            return Some(&tab[k].1);
        }
        k += 1;
    }
    None
}

proof fn lemma_lookup_key_stays(tab: Seq<(Seq<char>, Term)>, key: Seq<char>, j: int, k: int)
    requires
        0 < j <= k <= tab.len(),
        lookup_key(tab, key, j) is Some,
    ensures
        lookup_key(tab, key, k) == lookup_key(tab, key, j),
    decreases k - j,
{
    if j < k {
        lemma_lookup_key_stays(tab, key, j, k - 1);
    }
}

proof fn lemma_prop_stays(v: Term, key: Seq<char>, j: int, k: int)
    requires
        0 < j <= k <= v.children.len(),
        prop_upto(v, key, j) is Some,
    ensures
        prop_upto(v, key, k) == prop_upto(v, key, j),
    decreases k - j,
{
    if j < k {
        lemma_prop_stays(v, key, j, k - 1);
    }
}

fn index_exec<'a>(v: Option<&'a Node>, key: &String) -> (r: Option<&'a Node>)
    ensures
        val(r) == index_value(val(v), key@),
{
    match v {
        None => None,
        Some(n) => {
            proof { lemma_children_view(*n); }
            if n.kind != Kind::Object {
                return None;
            }
            let mut k: usize = 0;
            while k < n.children.len()
                invariant
                    k <= n.children.len(),
                    n@.children.len() == n.children.len(),
                    forall|j: int| 0 <= j < n.children.len() ==> #[trigger] n@.children[j] == n.children[j]@,
                    prop_upto(n@, key@, k as int) is None,
                    n.kind == Kind::Object,
                    v == Some(n),
                decreases n.children.len() - k,
            {
                let p = &n.children[k];
                proof { lemma_children_view(*p); }
                if p.kind == Kind::Prop && p.text == *key && p.children.len() > 0 {
                    proof {
                        assert(prop_upto(n@, key@, k + 1) == Some(p.children[0]@));
                        lemma_prop_stays(n@, key@, k + 1, n@.children.len() as int);
                    }
                    return Some(&p.children[0]);
                }
                k += 1;
            }
            None
        },
    }
}

fn member_path_exec(t: &Node) -> (r: Option<Vec<String>>)
    ensures
        r matches Some(p) ==> member_path(t@) == Some(crate::text::texts(p@)),
        r is None ==> member_path(t@) is None,
    decreases t,
{
    proof { lemma_children_view(*t); }
    if t.children.len() == 0 {
        return None;
    }
    let o = &t.children[0];
    proof { lemma_children_view(*o); }
    let mut head: Vec<String> = if o.kind == Kind::Ident {
        let mut h: Vec<String> = Vec::new();
        h.push(o.text.clone());
        proof { assert(crate::text::texts(h@) =~= seq![o@.text]); }
        h
    } else if o.kind == Kind::Member {
        proof {
            broadcast use vstd::std_specs::vec::axiom_vec_index_decreases;
            assert(decreases_to!(*t => t.children));
        }
        match member_path_exec(o) {
            Some(h) => h,
            None => return None,
        }
    } else {
        return None;
    };
    let ghost h = crate::text::texts(head@);
    head.push(t.text.clone());
    proof {
        assert(crate::text::texts(head@) =~= h.push(t@.text));
        if o.kind == Kind::Ident {
            assert(h.push(t@.text) =~= seq![o@.text, t@.text]);
        }
    }
    Some(head)
}

fn join_dots_exec(path: &Vec<String>) -> (r: String)
    ensures
        r@ == join_dots(crate::text::texts(path@)),
{
    let ghost p = crate::text::texts(path@);
    let mut r = String::new();
    let mut i: usize = 0;
    proof { assert(p.subrange(0, 0) =~= Seq::<Seq<char>>::empty()); }
    while i < path.len()
        invariant
            i <= path@.len(),
            p == crate::text::texts(path@),
            r@ == join_dots(p.subrange(0, i as int)),
        decreases path@.len() - i,
    {
        proof { assert(p.subrange(0, i + 1).drop_last() =~= p.subrange(0, i as int)); }
        if i == 0 {
            r = path[0].clone();
            proof { assert(p.subrange(0, 1) =~= seq![p[0]]); }
        } else {
            r = join2(join2(r.as_str(), ".").as_str(), path[i].as_str());
        }
        i += 1;
    }
    proof { assert(p.subrange(0, i as int) =~= p); }
    r
}

fn path_value_exec<'a>(tab: &'a Vec<(String, Node)>, t: &Node) -> (r: Option<&'a Node>)
    ensures
        val(r) == path_value(entries_of(tab@), t@),
{
    let path = match member_path_exec(t) {
        Some(p) => p,
        None => return None,
    };
    let name = join_dots_exec(&path);
    let exact = lookup_value(tab, &name);
    if !is_null(exact) {
        return exact;
    }
    let ghost e = entries_of(tab@);
    let ghost p = crate::text::texts(path@);
    let mut v = lookup_value(tab, &path[0]);
    let mut k: usize = 1;
    while k < path.len()
        invariant
            1 <= k <= path@.len(),
            e == entries_of(tab@),
            p == crate::text::texts(path@),
            val(v) == walk(e, p, k as int),
        decreases path@.len() - k,
    {
        v = index_exec(v, &path[k]);
        k += 1;
    }
    v
}

/// The literal that value `v` converts to.
pub fn literal_exec(v: &Node) -> (r: Option<Node>)
    ensures
        r matches Some(x) ==> literal_of(v@) == Some(x@),
        r is None ==> literal_of(v@) is None,
    decreases v,
{
    proof {
        lemma_children_view(*v);
        reveal_strlit("");
        assert(""@ =~= Seq::<char>::empty());
    }
    if v.kind == Kind::Str || v.kind == Kind::Bool || v.kind == Kind::Num {
        let r = mk(v.kind, v.text.as_str(), 0, Vec::new());
        proof { assert(r@ =~= leaf(v@.kind, v@.text, 0)); }
        return Some(r);
    }
    if v.kind != Kind::Array && v.kind != Kind::Object {
        return None;
    }
    let mut out: Vec<Node> = Vec::new();
    let mut i: usize = 0;
    while i < v.children.len()
        invariant
            i <= v.children.len(),
            v@.children.len() == v.children.len(),
            forall|j: int| 0 <= j < v.children.len() ==> #[trigger] v@.children[j] == v.children[j]@,
            v.kind == Kind::Array || v.kind == Kind::Object,
            terms(out@) == literals_upto(v@, i as int),
        decreases v.children.len() - i,
    {
        proof {
            broadcast use vstd::std_specs::vec::axiom_vec_index_decreases;
            assert(decreases_to!(*v => v.children));
        }
        let c = &v.children[i];
        proof { lemma_children_view(*c); }
        if v.kind == Kind::Array {
            match literal_exec(c) {
                Some(x) => {
                    proof { lemma_terms_push(out@, x); }
                    out.push(x);
                },
                None => {},
            }
        } else if c.kind == Kind::Prop && c.children.len() > 0 {
            proof {
                assert(decreases_to!(*v => v.children[i as int]));
                assert(decreases_to!(v.children[i as int] => v.children[i as int].children));
                assert(decreases_to!(v.children[i as int].children => v.children[i as int].children[0]));
            }
            match literal_exec(&c.children[0]) {
                Some(x) => {
                    let ghost xv = x@;
                    let cs = vec![x];
                    proof { assert(terms(cs@) =~= seq![xv]); }
                    let p = mk(Kind::Prop, c.text.as_str(), 0, cs);
                    proof {
                        assert(p@ =~= branch(Kind::Prop, c@.text, seq![xv]));
                        lemma_terms_push(out@, p);
                    }
                    out.push(p);
                },
                None => {},
            }
        }
        i += 1;
    }
    let r = mk(v.kind, "", 0, out);
    proof { assert(r@ =~= branch(v@.kind, Seq::empty(), literals_upto(v@, v@.children.len() as int))); }
    Some(r)
}

fn binding_position_exec(parent: Kind, i: usize) -> (r: bool)
    ensures
        r == binding_position(parent, i as int),
{
    parent == Kind::Params || parent == Kind::ObjectPat || parent == Kind::KeyValuePat
        || parent == Kind::ImportNamed || parent == Kind::ImportDefault || parent == Kind::ImportStar
        || parent == Kind::ExportSpec
        || (i == 0 && (parent == Kind::AssignPat || parent == Kind::Declarator || parent == Kind::FnDecl
            || parent == Kind::Assign || parent == Kind::Update || parent == Kind::ForIn || parent == Kind::Class))
}

fn define_node(tab: &Vec<(String, Node)>, t: &Node, reference: bool) -> (r: Node)
    ensures
        r@ == define(entries_of(tab@), t@, reference),
    decreases t,
{
    proof { lemma_children_view(*t); }
    if t.kind == Kind::Member && reference {
        let v = path_value_exec(tab, t);
        match v {
            Some(n) => {
                match literal_exec(n) {
                    Some(x) => return x,
                    None => {},
                }
            },
            None => {},
        }
    }
    if t.kind == Kind::Ident {
        if reference {
            match lookup_value(tab, &t.text) {
                Some(n) => {
                    match literal_exec(n) {
                        Some(x) => return x,
                        None => {},
                    }
                },
                None => {},
            }
        }
        return crate::syntax::copy_tree(t);
    }
    let mut out: Vec<Node> = Vec::new();
    let mut i: usize = 0;
    while i < t.children.len()
        invariant
            i <= t.children.len(),
            t@.children.len() == t.children.len(),
            forall|j: int| 0 <= j < t.children.len() ==> #[trigger] t@.children[j] == t.children[j]@,
            terms(out@) == define_upto(entries_of(tab@), t@, i as int),
        decreases t.children.len() - i,
    {
        proof {
            broadcast use vstd::std_specs::vec::axiom_vec_index_decreases;
            assert(decreases_to!(*t => t.children));
        }
        let x = define_node(tab, &t.children[i], !binding_position_exec(t.kind, i));
        proof { lemma_terms_push(out@, x); }
        out.push(x);
        i += 1;
    }
    if t.kind == Kind::TypeOf && out.len() > 0 && out[0].kind == Kind::Ident {
        proof { lemma_children_view(out[0]); }
        let key = join2("typeof ", out[0].text.as_str());
        match lookup_value(tab, &key) {
            Some(n) => {
                match literal_exec(n) {
                    Some(x) => return x,
                    None => {},
                }
            },
            None => {},
        }
    }
    mk(t.kind, t.text.as_str(), t.ctxt, out)
}

/// A define pass over a table of key to value; the keys are distinct, as in
/// a JSON object.
pub struct TransformDefine {
    pub options: Vec<(String, Node)>,
}

impl TransformDefine {
    pub fn new(options: Vec<(String, Node)>) -> (r: TransformDefine)
        ensures
            r.options == options,
    {
        TransformDefine { options }
    }

    /// Folds the configured constants of `m`.
    pub fn apply(&self, m: &Node) -> (r: Node)
        ensures
            r@ == define(entries_of(self.options@), m@, true),
    {
        transform_define(&self.options, m)
    }
}

/// Replaces, in `m`, identifier references, member chains and `typeof`
/// expressions that `options` defines by the literals of their values.
pub fn transform_define(options: &Vec<(String, Node)>, m: &Node) -> (r: Node)
    ensures
        r@ == define(entries_of(options@), m@, true),
{
    define_node(options, m, true)
}

} // verus!
