//! Deep merge of configuration values.
//!
//! Values are literal trees as in the define pass: `Object` nodes hold `Prop`
//! children, `Array` nodes hold their elements.
use vstd::prelude::*;

use crate::syntax::{copy_tree, lemma_children_view, lemma_terms_push, mk, terms, with_children, Kind, Node, Term};

verus! {

/// The first index below `k` of a property of `s` named `key`.
pub open spec fn find_prop(s: Seq<Term>, key: Seq<char>, k: int) -> Option<int>
    decreases k,
{
    if k <= 0 || k > s.len() {
        None
    } else {
        match find_prop(s, key, k - 1) {
            Some(j) => Some(j),
            None => if s[k - 1].kind == Kind::Prop && s[k - 1].text == key && s[k - 1].children.len() > 0 {
                Some(k - 1)
            } else {
                None
            },
        }
    }
}

/// `overlay` merged into `base`: objects merge key by key, arrays are
/// concatenated, and anything else is replaced by the overlay.
pub open spec fn merged(base: Term, overlay: Term) -> Term
    decreases overlay, 1int, 0int,
{
    if base.kind == Kind::Object && overlay.kind == Kind::Object {
        with_children(base, merge_props(base.children, overlay, overlay.children.len() as int))
    } else if base.kind == Kind::Array && overlay.kind == Kind::Array {
        with_children(base, base.children + overlay.children)
    } else {
        overlay
    }
}

/// The properties `props` after merging in the first `k` properties of
/// object `overlay`: a key already present has its value merged, a new key
/// is appended.
pub open spec fn merge_props(props: Seq<Term>, overlay: Term, k: int) -> Seq<Term>
    decreases overlay, 0int, k,
{
    if k <= 0 || k > overlay.children.len() {
        props
    } else {
        let prev = merge_props(props, overlay, k - 1);
        let p = overlay.children[k - 1];
        if p.kind == Kind::Prop && p.children.len() > 0 {
            match find_prop(prev, p.text, prev.len() as int) {
                Some(j) => prev.update(j, with_children(prev[j], seq![merged(prev[j].children[0], p.children[0])])),
                None => prev.push(p),
            }
        } else {
            prev
        }
    }
}

proof fn lemma_find_prop(s: Seq<Term>, key: Seq<char>, k: int)
    ensures
        find_prop(s, key, k) matches Some(j) ==> 0 <= j < s.len() && s[j].kind == Kind::Prop && s[j].text == key
            && s[j].children.len() > 0,
    decreases k,
{
    if k > 0 {
        lemma_find_prop(s, key, k - 1);
    }
}

proof fn lemma_find_prop_stays(s: Seq<Term>, key: Seq<char>, j: int, k: int)
    requires
        0 < j <= k <= s.len(),
        find_prop(s, key, j) is Some,
    ensures
        find_prop(s, key, k) == find_prop(s, key, j),
    decreases k - j,
{
    if j < k {
        lemma_find_prop_stays(s, key, j, k - 1);
    }
}

fn find_prop_exec(props: &Vec<Node>, key: &String) -> (r: Option<usize>)
    ensures
        r matches Some(j) ==> find_prop(terms(props@), key@, props@.len() as int) == Some(j as int),
        r is None ==> find_prop(terms(props@), key@, props@.len() as int) is None,
{
    let ghost s = terms(props@);
    let mut k: usize = 0;
    while k < props.len()
        invariant
            k <= props@.len(),
            s == terms(props@),
            find_prop(s, key@, k as int) is None,
        decreases props@.len() - k,
    {
        let p = &props[k];
        proof { lemma_children_view(*p); }
        if p.kind == Kind::Prop && p.text == *key && p.children.len() > 0 {
            proof {
                assert(find_prop(s, key@, k + 1) == Some(k as int));
                lemma_find_prop_stays(s, key@, k + 1, s.len() as int);
            }
            return Some(k);
        }
        k += 1;
    }
    None
}

/// `overlay` merged into `base`.
pub fn merge_values(base: &Node, overlay: &Node) -> (r: Node)
    ensures
        r@ == merged(base@, overlay@),
    decreases overlay,
{
    proof {
        lemma_children_view(*base);
        lemma_children_view(*overlay);
    }
    if base.kind == Kind::Array && overlay.kind == Kind::Array {
        let mut out: Vec<Node> = Vec::new();
        let mut i: usize = 0;
        while i < base.children.len()
            invariant
                i <= base.children.len(),
                base@.children == terms(base.children@),
                terms(out@) == base@.children.subrange(0, i as int),
            decreases base.children.len() - i,
        {
            let x = copy_tree(&base.children[i]);
            proof { lemma_terms_push(out@, x); }
            out.push(x);
            i += 1;
            proof { assert(terms(out@) =~= base@.children.subrange(0, i as int)); }
        }
        let mut j: usize = 0;
        while j < overlay.children.len()
            invariant
                j <= overlay.children.len(),
                overlay@.children == terms(overlay.children@),
                base@.children.len() == base.children.len(),
                terms(out@) == base@.children + overlay@.children.subrange(0, j as int),
            decreases overlay.children.len() - j,
        {
            let x = copy_tree(&overlay.children[j]);
            proof { lemma_terms_push(out@, x); }
            out.push(x);
            j += 1;
            proof { assert(terms(out@) =~= base@.children + overlay@.children.subrange(0, j as int)); }
        }
        proof {
            assert(base@.children.subrange(0, i as int) =~= base@.children);
            assert(overlay@.children.subrange(0, j as int) =~= overlay@.children);
        }
        return mk(base.kind, base.text.as_str(), base.ctxt, out);
    }
    if !(base.kind == Kind::Object && overlay.kind == Kind::Object) {
        return copy_tree(overlay);
    }
    let mut props: Vec<Node> = Vec::new();
    let mut i: usize = 0;
    while i < base.children.len()
        invariant
            i <= base.children.len(),
            base@.children == terms(base.children@),
            terms(props@) == base@.children.subrange(0, i as int),
        decreases base.children.len() - i,
    {
        let x = copy_tree(&base.children[i]);
        proof { lemma_terms_push(props@, x); }
        props.push(x);
        i += 1;
        proof { assert(terms(props@) =~= base@.children.subrange(0, i as int)); }
    }
    proof { assert(base@.children.subrange(0, i as int) =~= base@.children); }
    let mut k: usize = 0;
    while k < overlay.children.len()
        invariant
            k <= overlay.children.len(),
            overlay@.children.len() == overlay.children.len(),
            forall|j: int| 0 <= j < overlay.children.len() ==> #[trigger] overlay@.children[j] == overlay.children[j]@,
            terms(props@) == merge_props(base@.children, overlay@, k as int),
        decreases overlay.children.len() - k,
    {
        let p = &overlay.children[k];
        proof { lemma_children_view(*p); }
        if p.kind == Kind::Prop && p.children.len() > 0 {
            match find_prop_exec(&props, &p.text) {
                Some(j) => {
                    proof {
                        lemma_find_prop(terms(props@), p.text@, props@.len() as int);
                        lemma_children_view(props@[j as int]);
                        broadcast use vstd::std_specs::vec::axiom_vec_index_decreases;
                        assert(decreases_to!(*overlay => overlay.children));
                        assert(decreases_to!(overlay.children[k as int] => overlay.children[k as int].children));
                    }
                    let ghost before = terms(props@);
                    let ghost pv = props@[j as int]@;
                    let value = merge_values(&props[j].children[0], &p.children[0]);
                    let ghost vv = value@;
                    let cs = vec![value];
                    proof { assert(terms(cs@) =~= seq![vv]); }
                    let updated = mk(props[j].kind, props[j].text.as_str(), props[j].ctxt, cs);
                    props.set(j, updated);
                    proof {
                        assert(updated@ == with_children(pv, seq![merged(pv.children[0], p@.children[0])]));
                        assert(terms(props@) =~= before.update(j as int, updated@));
                    }
                },
                None => {
                    let x = copy_tree(p);
                    proof { lemma_terms_push(props@, x); }
                    props.push(x);
                },
            }
        }
        k += 1;
    }
    mk(base.kind, base.text.as_str(), base.ctxt, props)
}

/// Merges `overlay` into `base` in place.
pub fn merge_json_values(base: &mut Node, overlay: &Node)
    ensures
        final(base)@ == merged(old(base)@, overlay@),
{
    let r = merge_values(base, overlay);
    *base = r;
}

} // verus!
