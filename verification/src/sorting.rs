//! The three orders of the results table and a stable sort by them.
use vstd::prelude::*;
use crate::order::{
    codes, compare_text, lemma_lex_asymmetric, lemma_lex_cons, lemma_lex_irreflexive,
    lemma_lex_total, lemma_lex_transitive, lex_lt, Order,
};
use crate::search::{best_price, best_view, sort_price, DomainResult};
use vstd::relations::injective_on;
use vstd::set_lib::{lemma_int_range, lemma_map_size, lemma_subset_equality, set_int_range};

verus! {

/// How the results are ordered.
#[derive(PartialEq, Eq, Structural, Clone, Copy, Debug)]
pub enum SortBy {
    Domain,
    Price,
    Status,
}

/// The name of an order, as the status line shows it.
pub open spec fn sort_label(s: SortBy) -> Seq<char> {
    match s {
        SortBy::Domain => "domain name"@,
        SortBy::Price => "best price"@,
        SortBy::Status => "availability"@,
    }
}

impl SortBy {
    /// The name of this order, as the status line shows it.
    pub fn label(&self) -> (s: &'static str)
        ensures
            s@ == sort_label(*self),
    {
        match self {
            SortBy::Domain => "domain name",
            SortBy::Price => "best price",
            SortBy::Status => "availability",
        }
    }
}

/// The order that Tab switches to: availability, then price, then domain,
/// then availability again.
pub open spec fn next_sort(s: SortBy) -> SortBy {
    match s {
        SortBy::Status => SortBy::Price,
        SortBy::Price => SortBy::Domain,
        SortBy::Domain => SortBy::Status,
    }
}

/// The order Tab switches to.
pub fn cycle_sort(s: SortBy) -> (r: SortBy)
    ensures
        r == next_sort(s),
{
    match s {
        SortBy::Status => SortBy::Price,
        SortBy::Price => SortBy::Domain,
        SortBy::Domain => SortBy::Status,
    }
}

/// Three presses of Tab come back to the order they started from, passing
/// through the two others.
pub proof fn lemma_sort_cycle(s: SortBy)
    ensures
        next_sort(next_sort(next_sort(s))) == s,
        next_sort(s) != s,
        next_sort(next_sort(s)) != s,
{
}

/// The rank of an availability answer in `Option<bool>`'s order: unknown,
/// then taken, then free.
pub open spec fn avail_rank(a: Option<bool>) -> int {
    match a {
        None => 0,
        Some(false) => 1,
        Some(true) => 2,
    }
}

/// The key a result is sorted by, compared lexicographically:
/// by domain; by availability (free first) and then domain; or by sort
/// price (none first, then cheapest) and then availability (free first).
pub open spec fn sort_key(mode: SortBy, r: DomainResult) -> Seq<int> {
    match mode {
        SortBy::Domain => codes(r.domain@),
        SortBy::Status => seq![-avail_rank(r.available)] + codes(r.domain@),
        SortBy::Price => match sort_price(best_view(r.best), r.prices.deep_view()) {
            None => seq![0, -avail_rank(r.available)],
            Some(p) => seq![1, p as int, -avail_rank(r.available)],
        },
    }
}

/// `a` goes strictly before `b` in the order `mode`.
pub open spec fn goes_before(mode: SortBy, a: DomainResult, b: DomainResult) -> bool {
    lex_lt(sort_key(mode, a), sort_key(mode, b))
}

fn rank(a: Option<bool>) -> (r: i8)
    ensures
        r == -avail_rank(a),
{
    match a {
        None => 0,
        Some(false) => -1,
        Some(true) => -2,
    }
}

/// Whether `a` goes strictly before `b` in the order `mode`.
pub fn precedes(mode: SortBy, a: &DomainResult, b: &DomainResult) -> (r: bool)
    ensures
        r == goes_before(mode, *a, *b),
{
    match mode {
        SortBy::Domain => {
            let c = compare_text(a.domain.as_str(), b.domain.as_str());
            c == Order::Less
        },
        SortBy::Status => {
            let ra = rank(a.available);
            let rb = rank(b.available);
            proof {
                lemma_lex_cons(ra as int, codes(a.domain@), rb as int, codes(b.domain@));
            }
            if ra < rb {
                true
            } else if ra > rb {
                false
            } else {
                compare_text(a.domain.as_str(), b.domain.as_str()) == Order::Less
            }
        },
        SortBy::Price => {
            let pa = best_price(a);
            let pb = best_price(b);
            let ra = rank(a.available);
            let rb = rank(b.available);
            match (pa, pb) {
                (None, None) => {
                    proof {
                        lemma_lex_cons(0, seq![ra as int], 0, seq![rb as int]);
                        lemma_lex_cons(ra as int, Seq::empty(), rb as int, Seq::empty());
                        assert(seq![0int, ra as int] =~= seq![0int] + seq![ra as int]);
                        assert(seq![0int, rb as int] =~= seq![0int] + seq![rb as int]);
                        assert(seq![ra as int] =~= seq![ra as int] + Seq::<int>::empty());
                        assert(seq![rb as int] =~= seq![rb as int] + Seq::<int>::empty());
                    }
                    ra < rb
                },
                (None, Some(_)) => {
                    proof {
                        lemma_lex_cons(0, seq![ra as int], 1, seq![pb->0 as int, rb as int]);
                        assert(seq![0int, ra as int] =~= seq![0int] + seq![ra as int]);
                        assert(seq![1int, pb->0 as int, rb as int] =~= seq![1int] + seq![
                            pb->0 as int,
                            rb as int,
                        ]);
                    }
                    true
                },
                (Some(_), None) => {
                    proof {
                        lemma_lex_cons(1, seq![pa->0 as int, ra as int], 0, seq![rb as int]);
                        assert(seq![0int, rb as int] =~= seq![0int] + seq![rb as int]);
                        assert(seq![1int, pa->0 as int, ra as int] =~= seq![1int] + seq![
                            pa->0 as int,
                            ra as int,
                        ]);
                    }
                    false
                },
                (Some(x), Some(y)) => {
                    proof {
                        let ta = seq![x as int, ra as int];
                        let tb = seq![y as int, rb as int];
                        lemma_lex_cons(1, ta, 1, tb);
                        lemma_lex_cons(x as int, seq![ra as int], y as int, seq![rb as int]);
                        lemma_lex_cons(ra as int, Seq::empty(), rb as int, Seq::empty());
                        assert(seq![1int, x as int, ra as int] =~= seq![1int] + ta);
                        assert(seq![1int, y as int, rb as int] =~= seq![1int] + tb);
                        assert(ta =~= seq![x as int] + seq![ra as int]);
                        assert(tb =~= seq![y as int] + seq![rb as int]);
                        assert(seq![ra as int] =~= seq![ra as int] + Seq::<int>::empty());
                        assert(seq![rb as int] =~= seq![rb as int] + Seq::<int>::empty());
                    }
                    if x < y {
                        true
                    } else if x > y {
                        false
                    } else {
                        ra < rb
                    }
                },
            }
        },
    }
}

/// `out` is `inp` rearranged by `perm` (`out[k]` is `inp[perm[k]]`),
/// ordered by `mode`, with results of equal key kept in their input order.
pub open spec fn stable_arrangement(
    mode: SortBy,
    out: Seq<DomainResult>,
    inp: Seq<DomainResult>,
    perm: Seq<int>,
) -> bool {
    &&& perm.len() == out.len()
    &&& out.len() == inp.len()
    &&& forall|k: int| 0 <= k < out.len() ==> 0 <= #[trigger] perm[k] < inp.len()
    &&& forall|k: int| 0 <= k < out.len() ==> #[trigger] out[k] == inp[perm[k]]
    &&& forall|k: int, l: int|
        0 <= k < out.len() && 0 <= l < out.len() && k != l ==> #[trigger] perm[k] != #[trigger] perm[l]
    &&& forall|k: int, l: int|
        0 <= k < l < out.len() ==> !goes_before(mode, #[trigger] out[l], #[trigger] out[k])
    &&& forall|k: int, l: int|
        0 <= k < l < out.len() && sort_key(mode, #[trigger] out[k]) == sort_key(
            mode,
            #[trigger] out[l],
        ) ==> perm[k] < perm[l]
}

/// `out` is the stable sort of `inp` by `mode`.
pub open spec fn stably_sorted(mode: SortBy, out: Seq<DomainResult>, inp: Seq<DomainResult>) -> bool {
    exists|perm: Seq<int>| stable_arrangement(mode, out, inp, perm)
}

/// Sorting keeps every result: each result of the input stands somewhere
/// in the output.
pub proof fn lemma_sort_keeps_every_result(
    mode: SortBy,
    out: Seq<DomainResult>,
    inp: Seq<DomainResult>,
    a: int,
)
    requires
        stably_sorted(mode, out, inp),
        0 <= a < inp.len(),
    ensures
        exists|k: int| 0 <= k < out.len() && out[k] == inp[a],
{
    let perm = choose|perm: Seq<int>| stable_arrangement(mode, out, inp, perm);
    let n = inp.len() as int;
    let dom = set_int_range(0, n);
    let f = |k: int| perm[k];
    lemma_int_range(0, n);
    let img = dom.map(f);
    assert(injective_on(f, dom)) by {
        assert forall|x: int, y: int| dom.contains(x) && dom.contains(y) && #[trigger] f(x)
            == #[trigger] f(y) implies x == y by {
            if x != y {
                assert(perm[x] != perm[y]);
            }
        }
    }
    lemma_map_size(dom, img, f);
    assert(img.subset_of(dom)) by {
        assert forall|y: int| img.contains(y) implies dom.contains(y) by {
            let k = choose|k: int| dom.contains(k) && f(k) == y;
            assert(0 <= perm[k] < n);
        }
    }
    lemma_subset_equality(img, dom);
    assert(img.contains(a));
    let k = choose|k: int| dom.contains(k) && f(k) == a;
    assert(out[k] == inp[perm[k]]);
}

proof fn lemma_not_before_transitive(mode: SortBy, a: DomainResult, b: DomainResult, c: DomainResult)
    requires
        !goes_before(mode, b, a),
        !goes_before(mode, c, b),
    ensures
        !goes_before(mode, c, a),
{
    let ka = sort_key(mode, a);
    let kb = sort_key(mode, b);
    let kc = sort_key(mode, c);
    lemma_lex_total(ka, kb);
    lemma_lex_total(kb, kc);
    if lex_lt(kc, ka) {
        if lex_lt(ka, kb) {
            lemma_lex_transitive(kc, ka, kb);
        }
        if ka == kb {
        }
    }
}

/// Sorts the results by `mode`, keeping results of equal key in order.
#[verifier::rlimit(40)]
pub fn sort_results_by(mode: SortBy, v: &mut Vec<DomainResult>)
    ensures
        stably_sorted(mode, final(v)@, old(v)@),
{
    let ghost inp = v@;
    let n = v.len();
    let mut out: Vec<DomainResult> = Vec::new();
    let ghost mut perm: Seq<int> = Seq::empty();
    let mut k: usize = 0;
    assert(inp.subrange(0, n as int) =~= inp);
    while k < n
        invariant
            n == inp.len(),
            k <= n,
            v@ == inp.subrange(k as int, n as int),
            perm.len() == out@.len(),
            out@.len() == k,
            forall|a: int| 0 <= a < k ==> 0 <= #[trigger] perm[a] < k,
            forall|a: int| 0 <= a < k ==> #[trigger] out@[a] == inp[perm[a]],
            forall|a: int, b: int|
                0 <= a < k && 0 <= b < k && a != b ==> #[trigger] perm[a] != #[trigger] perm[b],
            forall|a: int, b: int|
                0 <= a < b < k ==> !goes_before(mode, #[trigger] out@[b], #[trigger] out@[a]),
            forall|a: int, b: int|
                0 <= a < b < k && sort_key(mode, #[trigger] out@[a]) == sort_key(
                    mode,
                    #[trigger] out@[b],
                ) ==> perm[a] < perm[b],
        decreases n - k,
    {
        let x = v.remove(0);
        assert(x == inp[k as int]);
        assert(v@ =~= inp.subrange(k + 1, n as int));
        let mut p: usize = out.len();
        while p > 0 && precedes(mode, &x, &out[p - 1])
            invariant
                p <= out@.len(),
                forall|j: int| p <= j < out@.len() ==> goes_before(mode, x, #[trigger] out@[j]),
            decreases p,
        {
            p = p - 1;
        }
        let ghost old_out = out@;
        proof {
            // everything before the insertion point may stay before `x`
            assert forall|j: int| 0 <= j < p implies !goes_before(mode, x, #[trigger] old_out[j]) by {
                assert(!goes_before(mode, x, old_out[p - 1]));
                if j < p - 1 {
                    assert(!goes_before(mode, old_out[p - 1], old_out[j]));
                    lemma_not_before_transitive(mode, old_out[j], old_out[p - 1], x);
                }
            }
        }
        out.insert(p, x);
        proof {
            let old_perm = perm;
            perm = perm.insert(p as int, k as int);
            let o = out@;
            assert(o =~= old_out.insert(p as int, x));
            assert forall|a: int| 0 <= a < k + 1 implies 0 <= #[trigger] perm[a] < k + 1 by {
                if a < p {
                    assert(perm[a] == old_perm[a]);
                } else if a > p {
                    assert(perm[a] == old_perm[a - 1]);
                }
            }
            assert forall|a: int| 0 <= a < k + 1 implies #[trigger] o[a] == inp[perm[a]] by {
                if a < p {
                    assert(perm[a] == old_perm[a]);
                    assert(o[a] == old_out[a]);
                } else if a > p {
                    assert(perm[a] == old_perm[a - 1]);
                    assert(o[a] == old_out[a - 1]);
                }
            }
            assert forall|a: int, b: int|
                0 <= a < k + 1 && 0 <= b < k + 1 && a != b implies #[trigger] perm[a]
                != #[trigger] perm[b] by {
                let ia = if a < p { a } else if a > p { a - 1 } else { -1 };
                let ib = if b < p { b } else if b > p { b - 1 } else { -1 };
                if ia >= 0 {
                    assert(perm[a] == old_perm[ia]);
                    assert(old_perm[ia] < k);
                }
                if ib >= 0 {
                    assert(perm[b] == old_perm[ib]);
                    assert(old_perm[ib] < k);
                }
                if ia >= 0 && ib >= 0 {
                    assert(old_perm[ia] != old_perm[ib]);
                }
            }
            assert forall|a: int, b: int| 0 <= a < b < k + 1 implies !goes_before(
                mode,
                #[trigger] o[b],
                #[trigger] o[a],
            ) by {
                if b < p {
                    assert(o[a] == old_out[a] && o[b] == old_out[b]);
                } else if a > p {
                    assert(o[a] == old_out[a - 1] && o[b] == old_out[b - 1]);
                } else if a < p && b > p {
                    assert(o[a] == old_out[a] && o[b] == old_out[b - 1]);
                } else if a == p {
                    assert(o[b] == old_out[b - 1]);
                    assert(goes_before(mode, x, old_out[b - 1]));
                    lemma_lex_asymmetric(sort_key(mode, x), sort_key(mode, old_out[b - 1]));
                } else {
                    assert(o[a] == old_out[a]);
                    assert(!goes_before(mode, x, old_out[a]));
                }
            }
            assert forall|a: int, b: int|
                0 <= a < b < k + 1 && sort_key(mode, #[trigger] o[a]) == sort_key(
                    mode,
                    #[trigger] o[b],
                ) implies perm[a] < perm[b] by {
                if b < p {
                    assert(o[a] == old_out[a] && o[b] == old_out[b]);
                } else if a > p {
                    assert(o[a] == old_out[a - 1] && o[b] == old_out[b - 1]);
                } else if a < p && b > p {
                    assert(o[a] == old_out[a] && o[b] == old_out[b - 1]);
                } else if a == p {
                    assert(o[b] == old_out[b - 1]);
                    assert(goes_before(mode, x, old_out[b - 1]));
                    lemma_lex_irreflexive(sort_key(mode, x));
                } else {
                    assert(perm[a] == old_perm[a]);
                    assert(old_perm[a] < k);
                }
            }
        }
        k = k + 1;
    }
    proof {
        assert(stable_arrangement(mode, out@, inp, perm));
    }
    *v = out;
}

} // verus!
