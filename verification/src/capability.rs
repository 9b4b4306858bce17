//! Capability candidates and preference ordering.
//!
//! A capability is resolved against the datums that advertise it. When a
//! requirement carries a preference list, candidates are ordered by the index
//! of the first preference prefix their key starts with; candidates matching
//! no prefix come after all matched ones. The ordering is stable: candidates
//! of equal rank keep their original relative order.
use vstd::prelude::*;
use crate::datum::{BootDatum, DatumType, key_of, string_eq};
use crate::text::{is_prefix, str_starts_with};

verus! {

/// Whether `d` is a candidate provider of capability `cap`.
pub open spec fn is_provider(d: BootDatum, cap: Seq<char>) -> bool {
    &&& d.datum_type == Some(DatumType::Api)
    &&& match d.provides {
        Some(p) => p@ == cap,
        None => false,
    }
}

/// The indices below `n` of datums providing `cap`, in index order.
pub open spec fn candidates_upto(datums: Seq<BootDatum>, cap: Seq<char>, n: nat) -> Seq<usize>
    decreases n,
{
    if n == 0 {
        Seq::empty()
    } else {
        let rest = candidates_upto(datums, cap, (n - 1) as nat);
        if is_provider(datums[n - 1], cap) {
            rest.push((n - 1) as usize)
        } else {
            rest
        }
    }
}

/// The candidate set for `cap`: all indices of providing datums, in index order.
pub open spec fn candidates_for(datums: Seq<BootDatum>, cap: Seq<char>) -> Seq<usize> {
    candidates_upto(datums, cap, datums.len())
}

/// The preference rank of a candidate key: the index of the first preference
/// prefix that `key` starts with, or `prefer.len()` when none matches.
pub open spec fn prefix_rank(prefer: Seq<String>, key: Seq<char>) -> nat
    decreases prefer.len(),
{
    if prefer.len() == 0 {
        0
    } else if is_prefix(prefer[0]@, key) {
        0
    } else {
        1 + prefix_rank(prefer.drop_first(), key)
    }
}

/// The preference rank of the datum at index `c`.
pub open spec fn rank_at(datums: Seq<BootDatum>, prefer: Seq<String>, c: usize) -> nat {
    prefix_rank(prefer, key_of(datums[c as int]))
}

/// The candidates in `cands` (a prefix of length `n`) whose rank is exactly `r`,
/// in their original order.
pub open spec fn with_rank(
    datums: Seq<BootDatum>,
    cands: Seq<usize>,
    prefer: Seq<String>,
    r: nat,
    n: nat,
) -> Seq<usize>
    decreases n,
{
    if n == 0 {
        Seq::empty()
    } else {
        let rest = with_rank(datums, cands, prefer, r, (n - 1) as nat);
        if rank_at(datums, prefer, cands[n - 1]) == r {
            rest.push(cands[n - 1])
        } else {
            rest
        }
    }
}

/// The candidates ordered by rank, rank `0` first, ranks below `r`.
pub open spec fn ordered_upto(
    datums: Seq<BootDatum>,
    cands: Seq<usize>,
    prefer: Seq<String>,
    r: nat,
) -> Seq<usize>
    decreases r,
{
    if r == 0 {
        Seq::empty()
    } else {
        ordered_upto(datums, cands, prefer, (r - 1) as nat) + with_rank(
            datums,
            cands,
            prefer,
            (r - 1) as nat,
            cands.len(),
        )
    }
}

/// The candidate order the resolver tries: stably sorted by preference rank.
/// Every rank is at most `prefer.len()`, so all candidates appear.
pub open spec fn ordered_candidates(
    datums: Seq<BootDatum>,
    cands: Seq<usize>,
    prefer: Seq<String>,
) -> Seq<usize> {
    ordered_upto(datums, cands, prefer, prefer.len() + 1)
}

/// Finds all providers of `cap`, in index order.
pub fn find_candidates(datums: &Vec<BootDatum>, cap: &String) -> (r: Vec<usize>)
    ensures
        r@ == candidates_for(datums@, cap@),
{
    let mut out: Vec<usize> = Vec::new();
    let mut i: usize = 0;
    while i < datums.len()
        invariant
            i <= datums@.len(),
            out@ == candidates_upto(datums@, cap@, i as nat),
        decreases datums@.len() - i,
    {
        let d = &datums[i];
        let is_api = match d.datum_type {
            Some(DatumType::Api) => true,
            _ => false,
        };
        if is_api {
            if let Some(p) = &d.provides {
                if string_eq(p, cap) {
                    out.push(i);
                }
            }
        }
        i += 1;
    }
    out
}

/// Computes the preference rank of `key`.
pub fn rank_of(prefer: &Vec<String>, key: &String) -> (r: usize)
    ensures
        r as nat == prefix_rank(prefer@, key@),
        r <= prefer@.len(),
{
    proof {
        assert(prefer@.skip(0) =~= prefer@);
    }
    let mut i: usize = 0;
    while i < prefer.len()
        invariant
            i <= prefer@.len(),
            prefix_rank(prefer@, key@) == i + prefix_rank(prefer@.skip(i as int), key@),
            forall|j: int| 0 <= j < i ==> !is_prefix(prefer@[j]@, key@),
        decreases prefer@.len() - i,
    {
        let ghost rest = prefer@.skip(i as int);
        if str_starts_with(key.as_str(), prefer[i].as_str()) {
            proof {
                assert(rest[0] == prefer@[i as int]);
                assert(prefix_rank(rest, key@) == 0);
            }
            return i;
        }
        proof {
            assert(rest[0] == prefer@[i as int]);
            assert(rest.drop_first() =~= prefer@.skip(i + 1));
            assert(prefix_rank(rest, key@) == 1 + prefix_rank(prefer@.skip(i + 1), key@));
        }
        i += 1;
    }
    proof {
        assert(prefer@.skip(prefer@.len() as int).len() == 0);
    }
    i
}

/// Orders `cands` stably by preference rank.
pub fn order_candidates(datums: &Vec<BootDatum>, cands: &Vec<usize>, prefer: &Vec<String>) -> (r:
    Vec<usize>)
    requires
        forall|j: int| 0 <= j < cands@.len() ==> cands@[j] < datums@.len(),
    ensures
        r@ == ordered_candidates(datums@, cands@, prefer@),
{
    let mut out: Vec<usize> = Vec::new();
    let mut r: usize = 0;
    while r < prefer.len()
        invariant
            r <= prefer@.len(),
            forall|j: int| 0 <= j < cands@.len() ==> cands@[j] < datums@.len(),
            out@ == ordered_upto(datums@, cands@, prefer@, r as nat),
        decreases prefer@.len() - r,
    {
        collect_rank(datums, cands, prefer, r, &mut out);
        r += 1;
    }
    collect_rank(datums, cands, prefer, r, &mut out);
    out
}

/// Appends to `out` the candidates of rank exactly `r`, in original order.
fn collect_rank(
    datums: &Vec<BootDatum>,
    cands: &Vec<usize>,
    prefer: &Vec<String>,
    r: usize,
    out: &mut Vec<usize>,
)
    requires
        forall|j: int| 0 <= j < cands@.len() ==> cands@[j] < datums@.len(),
    ensures
        final(out)@ == old(out)@ + with_rank(datums@, cands@, prefer@, r as nat, cands@.len()),
{
    proof {
        assert(out@ =~= out@ + with_rank(datums@, cands@, prefer@, r as nat, 0));
    }
    let mut i: usize = 0;
    while i < cands.len()
        invariant
            i <= cands@.len(),
            forall|j: int| 0 <= j < cands@.len() ==> cands@[j] < datums@.len(),
            out@ == old(out)@ + with_rank(datums@, cands@, prefer@, r as nat, i as nat),
        decreases cands@.len() - i,
    {
        let c = cands[i];
        let key = datums[c].make_key();
        let rk = rank_of(prefer, &key);
        if rk == r {
            out.push(c);
        }
        i += 1;
    }
}

/// Candidate indices point into the index.
pub proof fn lemma_candidates_bounded(datums: Seq<BootDatum>, cap: Seq<char>, n: nat)
    ensures
        forall|p: int|
            0 <= p < candidates_upto(datums, cap, n).len() ==> #[trigger] candidates_upto(
                datums,
                cap,
                n,
            )[p] < n,
    decreases n,
{
    if n > 0 {
        lemma_candidates_bounded(datums, cap, (n - 1) as nat);
        let prev = candidates_upto(datums, cap, (n - 1) as nat);
        let cur = candidates_upto(datums, cap, n);
        assert forall|p: int| 0 <= p < cur.len() implies cur[p] < n by {
            if p < prev.len() {
                assert(cur[p] == prev[p]);
            }
        }
    }
}

/// Two sequences with the same multiset draw their elements from the same
/// bound.
pub proof fn lemma_elems_of_multiset(a: Seq<usize>, b: Seq<usize>, n: int)
    requires
        a.to_multiset() == b.to_multiset(),
        forall|p: int| 0 <= p < b.len() ==> #[trigger] b[p] < n,
    ensures
        forall|p: int| 0 <= p < a.len() ==> #[trigger] a[p] < n,
{
    broadcast use vstd::seq_lib::group_to_multiset_ensures;

    assert forall|p: int| 0 <= p < a.len() implies a[p] < n by {
        assert(a.contains(a[p]));
        assert(a.to_multiset().count(a[p]) > 0);
        assert(b.contains(a[p]));
        let q = choose|q: int| 0 <= q < b.len() && b[q] == a[p];
        assert(b[q] < n);
    }
}

/// Every preference rank is at most the length of the preference list.
pub proof fn lemma_rank_bound(prefer: Seq<String>, key: Seq<char>)
    ensures
        prefix_rank(prefer, key) <= prefer.len(),
    decreases prefer.len(),
{
    if prefer.len() > 0 && !is_prefix(prefer[0]@, key) {
        lemma_rank_bound(prefer.drop_first(), key);
    }
}

/// Every element selected by `with_rank` has exactly rank `r` and comes from
/// the first `n` candidates.
pub proof fn lemma_with_rank_elems(
    datums: Seq<BootDatum>,
    cands: Seq<usize>,
    prefer: Seq<String>,
    r: nat,
    n: nat,
)
    requires
        n <= cands.len(),
    ensures
        forall|p: int|
            0 <= p < with_rank(datums, cands, prefer, r, n).len() ==> rank_at(
                datums,
                prefer,
                #[trigger] with_rank(datums, cands, prefer, r, n)[p],
            ) == r,
    decreases n,
{
    if n > 0 {
        lemma_with_rank_elems(datums, cands, prefer, r, (n - 1) as nat);
        let prev = with_rank(datums, cands, prefer, r, (n - 1) as nat);
        let cur = with_rank(datums, cands, prefer, r, n);
        assert forall|p: int| 0 <= p < cur.len() implies rank_at(datums, prefer, cur[p]) == r by {
            if p < prev.len() {
                assert(cur[p] == prev[p]);
            }
        }
    }
}

/// In the ordered candidate sequence, ranks never decrease: every preferred
/// candidate is tried before every less preferred one.
pub proof fn lemma_ordered_by_rank(
    datums: Seq<BootDatum>,
    cands: Seq<usize>,
    prefer: Seq<String>,
    r: nat,
)
    ensures
        forall|p: int|
            0 <= p < ordered_upto(datums, cands, prefer, r).len() ==> rank_at(
                datums,
                prefer,
                #[trigger] ordered_upto(datums, cands, prefer, r)[p],
            ) < r,
        forall|p: int, q: int|
            0 <= p <= q < ordered_upto(datums, cands, prefer, r).len() ==> rank_at(
                datums,
                prefer,
                ordered_upto(datums, cands, prefer, r)[p],
            ) <= rank_at(datums, prefer, ordered_upto(datums, cands, prefer, r)[q]),
    decreases r,
{
    if r > 0 {
        lemma_ordered_by_rank(datums, cands, prefer, (r - 1) as nat);
        lemma_with_rank_elems(datums, cands, prefer, (r - 1) as nat, cands.len());
        let prev = ordered_upto(datums, cands, prefer, (r - 1) as nat);
        let block = with_rank(datums, cands, prefer, (r - 1) as nat, cands.len());
        let cur = ordered_upto(datums, cands, prefer, r);
        assert(cur == prev + block);
        assert forall|p: int| 0 <= p < cur.len() implies rank_at(datums, prefer, cur[p]) < r by {
            if p < prev.len() {
                assert(cur[p] == prev[p]);
            } else {
                assert(cur[p] == block[p - prev.len()]);
            }
        }
        assert forall|p: int, q: int| 0 <= p <= q < cur.len() implies rank_at(
            datums,
            prefer,
            cur[p],
        ) <= rank_at(datums, prefer, cur[q]) by {
            if p < prev.len() {
                assert(cur[p] == prev[p]);
            } else {
                assert(cur[p] == block[p - prev.len()]);
            }
            if q < prev.len() {
                assert(cur[q] == prev[q]);
            } else {
                assert(cur[q] == block[q - prev.len()]);
            }
        }
    }
}

/// Helper: extending the candidate prefix by one either appends that candidate
/// to its rank block or leaves the block unchanged.
proof fn lemma_ordered_upto_push(
    datums: Seq<BootDatum>,
    cands: Seq<usize>,
    prefer: Seq<String>,
    r: nat,
    n: nat,
)
    requires
        n < cands.len(),
        rank_at(datums, prefer, cands[n as int]) < r,
    ensures
        ordered_upto_n(datums, cands, prefer, r, n + 1).to_multiset() == ordered_upto_n(
            datums,
            cands,
            prefer,
            r,
            n,
        ).to_multiset().insert(cands[n as int]),
    decreases r,
{
    broadcast use vstd::seq_lib::group_to_multiset_ensures;

    if r > 0 {
        if rank_at(datums, prefer, cands[n as int]) == r - 1 {
            assert(with_rank(datums, cands, prefer, (r - 1) as nat, n + 1) == with_rank(
                datums,
                cands,
                prefer,
                (r - 1) as nat,
                n,
            ).push(cands[n as int]));
            lemma_ordered_upto_n_same(datums, cands, prefer, (r - 1) as nat, n);
            lemma_multiset_concat(
                ordered_upto_n(datums, cands, prefer, (r - 1) as nat, n),
                with_rank(datums, cands, prefer, (r - 1) as nat, n),
                with_rank(datums, cands, prefer, (r - 1) as nat, n).push(cands[n as int]),
            );
        } else {
            lemma_ordered_upto_push(datums, cands, prefer, (r - 1) as nat, n);
            assert(with_rank(datums, cands, prefer, (r - 1) as nat, n + 1) == with_rank(
                datums,
                cands,
                prefer,
                (r - 1) as nat,
                n,
            ));
            lemma_multiset_concat2(
                ordered_upto_n(datums, cands, prefer, (r - 1) as nat, n),
                ordered_upto_n(datums, cands, prefer, (r - 1) as nat, n + 1),
                with_rank(datums, cands, prefer, (r - 1) as nat, n),
                cands[n as int],
            );
        }
    }
}

/// Blocks of rank below `r` ignore a candidate whose rank is at least `r`.
proof fn lemma_ordered_upto_n_same(
    datums: Seq<BootDatum>,
    cands: Seq<usize>,
    prefer: Seq<String>,
    r: nat,
    n: nat,
)
    requires
        n < cands.len(),
        rank_at(datums, prefer, cands[n as int]) >= r,
    ensures
        ordered_upto_n(datums, cands, prefer, r, n + 1) == ordered_upto_n(
            datums,
            cands,
            prefer,
            r,
            n,
        ),
    decreases r,
{
    if r > 0 {
        lemma_ordered_upto_n_same(datums, cands, prefer, (r - 1) as nat, n);
        assert(with_rank(datums, cands, prefer, (r - 1) as nat, n + 1) == with_rank(
            datums,
            cands,
            prefer,
            (r - 1) as nat,
            n,
        ));
    }
}

/// `ordered_upto` restricted to the first `n` candidates.
pub open spec fn ordered_upto_n(
    datums: Seq<BootDatum>,
    cands: Seq<usize>,
    prefer: Seq<String>,
    r: nat,
    n: nat,
) -> Seq<usize>
    decreases r,
{
    if r == 0 {
        Seq::empty()
    } else {
        ordered_upto_n(datums, cands, prefer, (r - 1) as nat, n) + with_rank(
            datums,
            cands,
            prefer,
            (r - 1) as nat,
            n,
        )
    }
}

proof fn lemma_multiset_concat(a: Seq<usize>, b: Seq<usize>, c: Seq<usize>)
    requires
        c.to_multiset() == b.to_multiset().insert(c.last()),
        c.len() > 0,
    ensures
        (a + c).to_multiset() == (a + b).to_multiset().insert(c.last()),
{
    broadcast use vstd::seq_lib::group_to_multiset_ensures;

    vstd::seq_lib::lemma_multiset_commutative(a, c);
    vstd::seq_lib::lemma_multiset_commutative(a, b);
}

proof fn lemma_multiset_concat2(a: Seq<usize>, a2: Seq<usize>, b: Seq<usize>, x: usize)
    requires
        a2.to_multiset() == a.to_multiset().insert(x),
    ensures
        (a2 + b).to_multiset() == (a + b).to_multiset().insert(x),
{
    broadcast use vstd::seq_lib::group_to_multiset_ensures;

    vstd::seq_lib::lemma_multiset_commutative(a2, b);
    vstd::seq_lib::lemma_multiset_commutative(a, b);
    assert((a2 + b).to_multiset() =~= (a + b).to_multiset().insert(x));
}

proof fn lemma_ordered_full_n(
    datums: Seq<BootDatum>,
    cands: Seq<usize>,
    prefer: Seq<String>,
    n: nat,
)
    requires
        n <= cands.len(),
    ensures
        ordered_upto_n(datums, cands, prefer, prefer.len() + 1, n).to_multiset() == cands.subrange(
            0,
            n as int,
        ).to_multiset(),
    decreases n,
{
    broadcast use vstd::seq_lib::group_to_multiset_ensures;

    if n == 0 {
        lemma_ordered_upto_n_zero(datums, cands, prefer, prefer.len() + 1);
        assert(cands.subrange(0, 0).to_multiset() =~= Seq::<usize>::empty().to_multiset());
    } else {
        lemma_ordered_full_n(datums, cands, prefer, (n - 1) as nat);
        lemma_rank_bound(prefer, key_of(datums[cands[n - 1] as int]));
        lemma_ordered_upto_push(datums, cands, prefer, prefer.len() + 1, (n - 1) as nat);
        assert(cands.subrange(0, n as int) =~= cands.subrange(0, n - 1).push(cands[n - 1]));
        assert(cands.subrange(0, n as int).to_multiset() == cands.subrange(
            0,
            n - 1,
        ).to_multiset().insert(cands[n - 1]));
    }
}

proof fn lemma_ordered_upto_n_zero(
    datums: Seq<BootDatum>,
    cands: Seq<usize>,
    prefer: Seq<String>,
    r: nat,
)
    ensures
        ordered_upto_n(datums, cands, prefer, r, 0).to_multiset() == Seq::<
            usize,
        >::empty().to_multiset(),
    decreases r,
{
    if r > 0 {
        lemma_ordered_upto_n_zero(datums, cands, prefer, (r - 1) as nat);
        assert(ordered_upto_n(datums, cands, prefer, r, 0) =~= ordered_upto_n(
            datums,
            cands,
            prefer,
            (r - 1) as nat,
            0,
        ));
    }
}

proof fn lemma_ordered_upto_n_is_upto(
    datums: Seq<BootDatum>,
    cands: Seq<usize>,
    prefer: Seq<String>,
    r: nat,
)
    ensures
        ordered_upto_n(datums, cands, prefer, r, cands.len()) == ordered_upto(
            datums,
            cands,
            prefer,
            r,
        ),
    decreases r,
{
    if r > 0 {
        lemma_ordered_upto_n_is_upto(datums, cands, prefer, (r - 1) as nat);
    }
}

/// The ordered candidate sequence is a permutation of the candidate set:
/// ordering by preference neither drops nor invents a candidate.
pub proof fn lemma_ordered_permutes(datums: Seq<BootDatum>, cands: Seq<usize>, prefer: Seq<String>)
    ensures
        ordered_candidates(datums, cands, prefer).to_multiset() == cands.to_multiset(),
{
    lemma_ordered_full_n(datums, cands, prefer, cands.len());
    lemma_ordered_upto_n_is_upto(datums, cands, prefer, prefer.len() + 1);
    assert(cands.subrange(0, cands.len() as int) =~= cands);
}

} // verus!
