//! String operations over character sequences, and collision-free names.
use vstd::prelude::*;

verus! {

/// `s` begins with `p`.
pub open spec fn has_prefix(s: Seq<char>, p: Seq<char>) -> bool {
    p.len() <= s.len() && s.subrange(0, p.len() as int) == p
}

/// `s` ends with `p`.
pub open spec fn has_suffix(s: Seq<char>, p: Seq<char>) -> bool {
    p.len() <= s.len() && s.subrange(s.len() - p.len(), s.len() as int) == p
}

/// Compares a string with a literal.
pub fn eq_str(s: &String, lit: &str) -> (r: bool)
    ensures
        r == (s@ == lit@),
{
    let t = lit.to_string();
    *s == t
}

/// Copies a string slice into a new string.
pub fn owned(s: &str) -> (r: String)
    ensures
        r@ == s@,
{
    s.to_string()
}

/// Joins two strings.
pub fn join2(a: &str, b: &str) -> (r: String)
    ensures
        r@ == a@ + b@,
{
    let mut r = a.to_string();
    r.append(b);
    r
}

pub fn starts_with(s: &str, p: &str) -> (r: bool)
    ensures
        r == has_prefix(s@, p@),
{
    let n = s.unicode_len();
    let m = p.unicode_len();
    if m > n {
        return false;
    }
    let mut i: usize = 0;
    while i < m
        invariant
            m <= n,
            n == s@.len(),
            m == p@.len(),
            i <= m,
            forall|j: int| 0 <= j < i ==> s@[j] == p@[j],
        decreases m - i,
    {
        if s.get_char(i) != p.get_char(i) {
            proof {
                assert(s@.subrange(0, m as int)[i as int] != p@[i as int]);
            }
            return false;
        }
        i += 1;
    }
    proof {
        assert(s@.subrange(0, m as int) =~= p@);
    }
    true
}

pub fn ends_with(s: &str, p: &str) -> (r: bool)
    ensures
        r == has_suffix(s@, p@),
{
    let n = s.unicode_len();
    let m = p.unicode_len();
    if m > n {
        return false;
    }
    let off = n - m;
    let mut i: usize = 0;
    while i < m
        invariant
            m <= n,
            off == n - m,
            n == s@.len(),
            m == p@.len(),
            i <= m,
            forall|j: int| 0 <= j < i ==> s@[off + j] == p@[j],
        decreases m - i,
    {
        if s.get_char(off + i) != p.get_char(i) {
            proof {
                assert(s@.subrange(off as int, n as int)[i as int] != p@[i as int]);
            }
            return false;
        }
        i += 1;
    }
    proof {
        assert(s@.subrange(off as int, n as int) =~= p@);
    }
    true
}

/// The strings of a list, as character sequences.
pub open spec fn texts(v: Seq<String>) -> Seq<Seq<char>> {
    v.map_values(|s: String| s@)
}

/// Whether `v` holds a string equal to `s`.
pub fn contains_text(v: &Vec<String>, s: &String) -> (r: bool)
    ensures
        r == texts(v@).contains(s@),
{
    let mut i: usize = 0;
    while i < v.len()
        invariant
            i <= v@.len(),
            forall|j: int| 0 <= j < i ==> v@[j]@ != s@,
        decreases v@.len() - i,
    {
        if v[i] == *s {
            proof { assert(texts(v@)[i as int] == s@); }
            return true;
        }
        i += 1;
    }
    proof {
        if texts(v@).contains(s@) {
            let j = choose|j: int| 0 <= j < texts(v@).len() && texts(v@)[j] == s@;
            assert(v@[j]@ == s@);
        }
    }
    false
}

/// The decimal digits of `n`.
pub open spec fn decimal(n: nat) -> Seq<char>
    decreases n,
{
    if n < 10 {
        seq![digit_char(n)]
    } else {
        decimal(n / 10).push(digit_char(n % 10))
    }
}

pub open spec fn digit_char(d: nat) -> char {
    if d == 0 { '0' }
    else if d == 1 { '1' }
    else if d == 2 { '2' }
    else if d == 3 { '3' }
    else if d == 4 { '4' }
    else if d == 5 { '5' }
    else if d == 6 { '6' }
    else if d == 7 { '7' }
    else if d == 8 { '8' }
    else { '9' }
}

fn digit_str(d: usize) -> (r: &'static str)
    requires
        d < 10,
    ensures
        r@ == seq![digit_char(d as nat)],
{
    proof {
        reveal_strlit("0"); reveal_strlit("1"); reveal_strlit("2"); reveal_strlit("3");
        reveal_strlit("4"); reveal_strlit("5"); reveal_strlit("6"); reveal_strlit("7");
        reveal_strlit("8"); reveal_strlit("9");
    }
    if d == 0 { "0" }
    else if d == 1 { "1" }
    else if d == 2 { "2" }
    else if d == 3 { "3" }
    else if d == 4 { "4" }
    else if d == 5 { "5" }
    else if d == 6 { "6" }
    else if d == 7 { "7" }
    else if d == 8 { "8" }
    else { "9" }
}

/// Writes `n` in decimal.
pub fn to_decimal(n: usize) -> (r: String)
    ensures
        r@ == decimal(n as nat),
    decreases n,
{
    if n < 10 {
        let r = owned(digit_str(n));
        proof { assert(r@ =~= decimal(n as nat)); }
        r
    } else {
        let mut r = to_decimal(n / 10);
        r.append(digit_str(n % 10));
        proof { assert(r@ =~= decimal(n as nat)); }
        r
    }
}

/// `base` with the number `k` appended; `base` itself for zero.
pub open spec fn numbered(base: Seq<char>, k: nat) -> Seq<char> {
    if k == 0 { base } else { base + decimal(k) }
}

/// The first of `numbered(base, k)`, `numbered(base, k + 1)`, ... up to
/// `numbered(base, taken.len())` that `taken` does not hold.
pub open spec fn first_free(base: Seq<char>, taken: Seq<Seq<char>>, k: nat) -> Option<Seq<char>>
    decreases taken.len() + 1 - k,
{
    if k > taken.len() {
        None
    } else if !taken.contains(numbered(base, k)) {
        Some(numbered(base, k))
    } else {
        first_free(base, taken, k + 1)
    }
}

/// The length of the longest of `taken`.
pub open spec fn longest(taken: Seq<Seq<char>>) -> nat
    decreases taken.len(),
{
    if taken.len() == 0 {
        0
    } else {
        let l = longest(taken.drop_last());
        if taken.last().len() > l { taken.last().len() } else { l }
    }
}

/// `base` padded with underscores until it is longer than every name taken.
pub open spec fn padded(base: Seq<char>, taken: Seq<Seq<char>>) -> Seq<char> {
    if base.len() > longest(taken) {
        base
    } else {
        base + Seq::new((longest(taken) + 1 - base.len()) as nat, |i: int| '_')
    }
}

/// The name chosen for a synthesized binding: `base` when no name in `taken`
/// equals it, else `base` followed by the smallest number that makes it free.
pub open spec fn fresh(base: Seq<char>, taken: Seq<Seq<char>>) -> Seq<char> {
    match first_free(base, taken, 0) {
        Some(n) => n,
        None => padded(base, taken),
    }
}

proof fn lemma_first_free(base: Seq<char>, taken: Seq<Seq<char>>, k: nat)
    ensures
        first_free(base, taken, k) matches Some(n) ==> !taken.contains(n) && has_prefix(n, base),
    decreases taken.len() + 1 - k,
{
    if k <= taken.len() {
        assert(numbered(base, k).subrange(0, base.len() as int) =~= base);
        lemma_first_free(base, taken, k + 1);
    }
}

proof fn lemma_longest(taken: Seq<Seq<char>>, j: int)
    requires
        0 <= j < taken.len(),
    ensures
        taken[j].len() <= longest(taken),
    decreases taken.len(),
{
    if j < taken.len() - 1 {
        lemma_longest(taken.drop_last(), j);
    }
}

/// A synthesized name never collides with a taken one, and keeps its base.
pub proof fn lemma_fresh(base: Seq<char>, taken: Seq<Seq<char>>)
    ensures
        !taken.contains(fresh(base, taken)),
        has_prefix(fresh(base, taken), base),
{
    lemma_first_free(base, taken, 0);
    if first_free(base, taken, 0) is None {
        let p = padded(base, taken);
        assert(p.subrange(0, base.len() as int) =~= base);
        if taken.contains(p) {
            let j = choose|j: int| 0 <= j < taken.len() && taken[j] == p;
            lemma_longest(taken, j);
        }
    }
}

fn longest_len(taken: &Vec<String>) -> (r: usize)
    ensures
        r == longest(texts(taken@)),
{
    let mut i: usize = 0;
    let mut best: usize = 0;
    while i < taken.len()
        invariant
            i <= taken@.len(),
            best == longest(texts(taken@).subrange(0, i as int)),
        decreases taken@.len() - i,
    {
        proof {
            assert(texts(taken@).subrange(0, i + 1).drop_last() =~= texts(taken@).subrange(0, i as int));
        }
        let l = taken[i].as_str().unicode_len();
        if l > best {
            best = l;
        }
        i += 1;
    }
    proof { assert(texts(taken@).subrange(0, i as int) =~= texts(taken@)); }
    best
}

/// The name `fresh(base, taken)`.
pub fn fresh_name(base: &str, taken: &Vec<String>) -> (r: String)
    ensures
        r@ == fresh(base@, texts(taken@)),
        has_prefix(r@, base@),
        !texts(taken@).contains(r@),
{
    let ghost tk = texts(taken@);
    let n = taken.len();
    let mut k: usize = 0;
    loop
        invariant
            n == taken@.len(),
            tk == texts(taken@),
            k <= n,
            first_free(base@, tk, 0) == first_free(base@, tk, k as nat),
        ensures
            first_free(base@, tk, 0) is None,
        decreases n - k,
    {
        let cand = if k == 0 {
            owned(base)
        } else {
            join2(base, to_decimal(k).as_str())
        };
        proof { assert(cand@ == numbered(base@, k as nat)); }
        if !contains_text(taken, &cand) {
            proof {
                assert(first_free(base@, tk, k as nat) == Some(cand@));
                assert(fresh(base@, tk) == cand@);
                lemma_fresh(base@, tk);
            }
            return cand;
        }
        proof { assert(first_free(base@, tk, k as nat) == first_free(base@, tk, (k + 1) as nat)); }
        if k == n {
            proof { assert(first_free(base@, tk, (k + 1) as nat) is None); }
            break;
        }
        k += 1;
    }
    let most = longest_len(taken);
    let mut cand = owned(base);
    let ghost b = base@;
    proof { assert(cand@ =~= b + Seq::new(0, |i: int| '_')); }
    while cand.as_str().unicode_len() <= most
        invariant
            most == longest(tk),
            b.len() <= cand@.len(),
            cand@.len() <= b.len() || cand@.len() <= most + 1,
            cand@ == b + Seq::new((cand@.len() - b.len()) as nat, |i: int| '_'),
        decreases most + 1 - cand@.len(),
    {
        let ghost before = cand@;
        cand.append("_");
        proof {
            reveal_strlit("_");
            assert(cand@ =~= b + Seq::new((cand@.len() - b.len()) as nat, |i: int| '_'));
        }
    }
    proof {
        if b.len() > most {
            assert(cand@ =~= b);
        } else {
            assert(cand@ =~= padded(b, tk));
        }
        assert(first_free(b, tk, 0) is None);
        assert(fresh(b, tk) == cand@);
        lemma_fresh(b, tk);
    }
    cand
}

} // verus!
