//! Lexicographic order on integer sequences, the one order every sort key
//! of the library is expressed in, and the comparison of texts by it.
use vstd::prelude::*;
use crate::text::chars_of;

verus! {

/// Strict lexicographic order; a proper prefix comes first.
pub open spec fn lex_lt(a: Seq<int>, b: Seq<int>) -> bool
    decreases a.len(),
{
    if b.len() == 0 {
        false
    } else if a.len() == 0 {
        true
    } else if a[0] < b[0] {
        true
    } else if a[0] > b[0] {
        false
    } else {
        lex_lt(a.drop_first(), b.drop_first())
    }
}

/// A text as the sequence of its code points.
pub open spec fn codes(s: Seq<char>) -> Seq<int> {
    s.map_values(|c: char| c as int)
}

pub proof fn lemma_lex_irreflexive(a: Seq<int>)
    ensures
        !lex_lt(a, a),
    decreases a.len(),
{
    if a.len() > 0 {
        lemma_lex_irreflexive(a.drop_first());
    }
}

pub proof fn lemma_lex_asymmetric(a: Seq<int>, b: Seq<int>)
    ensures
        lex_lt(a, b) ==> !lex_lt(b, a),
    decreases a.len(),
{
    if a.len() > 0 && b.len() > 0 && a[0] == b[0] {
        lemma_lex_asymmetric(a.drop_first(), b.drop_first());
    }
}

pub proof fn lemma_lex_transitive(a: Seq<int>, b: Seq<int>, c: Seq<int>)
    requires
        lex_lt(a, b),
        lex_lt(b, c),
    ensures
        lex_lt(a, c),
    decreases a.len(),
{
    if a.len() > 0 && a[0] == b[0] && b[0] == c[0] {
        lemma_lex_transitive(a.drop_first(), b.drop_first(), c.drop_first());
    }
}

pub proof fn lemma_lex_total(a: Seq<int>, b: Seq<int>)
    ensures
        a == b || lex_lt(a, b) || lex_lt(b, a),
    decreases a.len(),
{
    if a.len() > 0 && b.len() > 0 && a[0] == b[0] {
        lemma_lex_total(a.drop_first(), b.drop_first());
        if a.drop_first() == b.drop_first() {
            assert(a =~= seq![a[0]] + a.drop_first());
            assert(b =~= seq![b[0]] + b.drop_first());
        }
    } else if a.len() == 0 && b.len() == 0 {
        assert(a =~= b);
    }
}

/// Comparing two keys that start with one number each.
pub proof fn lemma_lex_cons(x: int, s: Seq<int>, y: int, t: Seq<int>)
    ensures
        lex_lt(seq![x] + s, seq![y] + t) == (x < y || (x == y && lex_lt(s, t))),
{
    assert((seq![x] + s).drop_first() =~= s);
    assert((seq![y] + t).drop_first() =~= t);
}

/// Equal prefixes do not decide the order.
pub proof fn lemma_lex_skip(a: Seq<int>, b: Seq<int>, i: int)
    requires
        0 <= i <= a.len(),
        i <= b.len(),
        a.subrange(0, i) == b.subrange(0, i),
    ensures
        lex_lt(a, b) == lex_lt(a.subrange(i, a.len() as int), b.subrange(i, b.len() as int)),
    decreases i,
{
    if i == 0 {
        assert(a.subrange(0, a.len() as int) =~= a);
        assert(b.subrange(0, b.len() as int) =~= b);
    } else {
        assert(a[0] == a.subrange(0, i)[0]);
        assert(b[0] == b.subrange(0, i)[0]);
        assert(a.drop_first().subrange(0, i - 1) =~= a.subrange(0, i).drop_first());
        assert(b.drop_first().subrange(0, i - 1) =~= b.subrange(0, i).drop_first());
        lemma_lex_skip(a.drop_first(), b.drop_first(), i - 1);
        assert(a.drop_first().subrange(i - 1, a.len() - 1) =~= a.subrange(i, a.len() as int));
        assert(b.drop_first().subrange(i - 1, b.len() - 1) =~= b.subrange(i, b.len() as int));
    }
}

/// The outcome of a three-way comparison.
#[derive(PartialEq, Eq, Structural, Clone, Copy, Debug)]
pub enum Order {
    Less,
    Equal,
    Greater,
}

/// Compares two texts code point by code point (the order of `str`'s
/// `Ord`, which compares UTF-8 bytes and so agrees with code points).
pub fn compare_text(a: &str, b: &str) -> (r: Order)
    ensures
        r == Order::Less <==> lex_lt(codes(a@), codes(b@)),
        r == Order::Greater <==> lex_lt(codes(b@), codes(a@)),
        r == Order::Equal <==> a@ == b@,
{
    let ac = chars_of(a);
    let bc = chars_of(b);
    let n = ac.len();
    let m = bc.len();
    let ghost ka = codes(a@);
    let ghost kb = codes(b@);
    let mut i: usize = 0;
    while i < n && i < m
        invariant
            ac@ == a@,
            bc@ == b@,
            n == a@.len(),
            m == b@.len(),
            ka == codes(a@),
            kb == codes(b@),
            i <= n,
            i <= m,
            forall|k: int| 0 <= k < i ==> ac@[k] == bc@[k],
        decreases n - i,
    {
        let x = ac[i];
        let y = bc[i];
        if x != y {
            proof {
                assert(ka.subrange(0, i as int) =~= kb.subrange(0, i as int));
                lemma_lex_skip(ka, kb, i as int);
                lemma_lex_skip(kb, ka, i as int);
                let ra = ka.subrange(i as int, n as int);
                let rb = kb.subrange(i as int, m as int);
                assert(ra[0] == x as int);
                assert(rb[0] == y as int);
                assert(a@[i as int] != b@[i as int]);
            }
            if x < y {
                return Order::Less;
            } else {
                return Order::Greater;
            }
        }
        i = i + 1;
    }
    proof {
        assert(ka.subrange(0, i as int) =~= kb.subrange(0, i as int));
        lemma_lex_skip(ka, kb, i as int);
        lemma_lex_skip(kb, ka, i as int);
    }
    if n < m {
        Order::Less
    } else if m < n {
        Order::Greater
    } else {
        assert(a@ =~= b@);
        Order::Equal
    }
}

} // verus!
