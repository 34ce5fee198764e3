//! Document-identity set algebra for the boolean condition engine: score
//! filtering, deduplication, intersection and union over the opaque
//! identities the storage engine hands back.

use vstd::prelude::*;

verus! {

/// One retrieved document's identity: its segment ordinal and its id within
/// the segment, valid only for the searcher view that produced it.
pub type DocKey = (u32, u32);

/// True when no identity occurs twice.
pub open spec fn no_dups(s: Seq<DocKey>) -> bool {
    forall|i: int, j: int| 0 <= i < j < s.len() ==> s[i] != s[j]
}

/// True when a hit passes the score cutoff: no cutoff keeps everything;
/// otherwise the score word must reach the cutoff word. Relevance scores are
/// non-negative, so comparing their bit patterns as words orders them as the
/// scores themselves.
pub open spec fn keeps(hit: (u32, u32, u32), cutoff: Option<u32>) -> bool {
    match cutoff {
        Option::None => true,
        Option::Some(c) => hit.0 >= c,
    }
}

/// The identities of the hits that pass the cutoff, in order.
pub open spec fn spec_filter_hits(hits: Seq<(u32, u32, u32)>, cutoff: Option<u32>) -> Seq<DocKey>
    decreases hits.len(),
{
    if hits.len() == 0 {
        Seq::empty()
    } else {
        let prev = spec_filter_hits(hits.drop_last(), cutoff);
        if keeps(hits.last(), cutoff) {
            prev.push((hits.last().1, hits.last().2))
        } else {
            prev
        }
    }
}

/// Filtering never lengthens the hit list.
pub proof fn lemma_filter_hits_len(hits: Seq<(u32, u32, u32)>, cutoff: Option<u32>)
    ensures
        spec_filter_hits(hits, cutoff).len() <= hits.len(),
    decreases hits.len(),
{
    if hits.len() > 0 {
        lemma_filter_hits_len(hits.drop_last(), cutoff);
    }
}

/// Score filtering keeps exactly the identities of the hits that pass the
/// cutoff, and nothing else.
pub proof fn lemma_filter_hits_membership(hits: Seq<(u32, u32, u32)>, cutoff: Option<u32>, k: DocKey)
    ensures
        spec_filter_hits(hits, cutoff).contains(k) <==> exists|j: int|
            0 <= j < hits.len() && keeps(#[trigger] hits[j], cutoff) && k == (
                hits[j].1,
                hits[j].2,
            ),
    decreases hits.len(),
{
    if hits.len() == 0 {
    } else {
        let body = hits.drop_last();
        let last = hits.last();
        lemma_filter_hits_membership(body, cutoff, k);
        let prev = spec_filter_hits(body, cutoff);
        if keeps(last, cutoff) {
            lemma_contains_push(prev, k, (last.1, last.2));
        }
        if spec_filter_hits(hits, cutoff).contains(k) {
            if prev.contains(k) {
                let j = choose|j: int|
                    0 <= j < body.len() && keeps(#[trigger] body[j], cutoff) && k == (
                        body[j].1,
                        body[j].2,
                    );
                assert(hits[j] == body[j]);
                assert(keeps(hits[j], cutoff) && k == (hits[j].1, hits[j].2));
            } else {
                assert(keeps(last, cutoff) && k == (last.1, last.2));
                assert(hits[hits.len() - 1] == last);
            }
        }
        if exists|j: int|
            0 <= j < hits.len() && keeps(#[trigger] hits[j], cutoff) && k == (
                hits[j].1,
                hits[j].2,
            ) {
            let j = choose|j: int|
                0 <= j < hits.len() && keeps(#[trigger] hits[j], cutoff) && k == (
                    hits[j].1,
                    hits[j].2,
                );
            if j < hits.len() - 1 {
                assert(body[j] == hits[j]);
                assert(prev.contains(k));
            } else {
                assert(hits[j] == last);
            }
            assert(spec_filter_hits(hits, cutoff).contains(k));
        }
    }
}

/// Filtering stays within any identity set that covers the hits: what holds
/// of every hit's identity holds of every filtered identity.
pub proof fn lemma_filter_hits_subset(
    hits: Seq<(u32, u32, u32)>,
    cutoff: Option<u32>,
    keys: Set<DocKey>,
)
    requires
        forall|j: int|
            0 <= j < hits.len() ==> keys.contains(((#[trigger] hits[j]).1, hits[j].2)),
    ensures
        forall|k: DocKey| #[trigger] spec_filter_hits(hits, cutoff).contains(k) ==> keys.contains(k),
{
    assert forall|k: DocKey| #[trigger] spec_filter_hits(hits, cutoff).contains(k) implies keys.contains(
        k,
    ) by {
        lemma_filter_hits_membership(hits, cutoff, k);
        let j = choose|j: int|
            0 <= j < hits.len() && keeps(#[trigger] hits[j], cutoff) && k == (hits[j].1, hits[j].2);
        assert(keys.contains((hits[j].1, hits[j].2)));
    }
}

/// Keeps the identities of the hits whose score word reaches the cutoff.
pub fn filter_hits(hits: &Vec<(u32, u32, u32)>, cutoff: Option<u32>) -> (r: Vec<DocKey>)
    ensures
        r@ == spec_filter_hits(hits@, cutoff),
        r@.len() <= hits@.len(),
{
    let mut out: Vec<DocKey> = Vec::new();
    let mut i: usize = 0;
    while i < hits.len()
        invariant
            i <= hits@.len(),
            out@ == spec_filter_hits(hits@.take(i as int), cutoff),
            out@.len() <= i,
        decreases hits@.len() - i,
    {
        proof {
            assert(hits@.take(i + 1).drop_last() =~= hits@.take(i as int));
            assert(hits@.take(i + 1).last() == hits@[i as int]);
        }
        let h = hits[i];
        let keep = match cutoff {
            Option::Some(c) => h.0 >= c,
            Option::None => true,
        };
        if keep {
            out.push((h.1, h.2));
        }
        i += 1;
    }
    proof {
        assert(hits@.take(hits@.len() as int) =~= hits@);
    }
    out
}

/// Membership in a pushed sequence.
proof fn lemma_contains_push(s: Seq<DocKey>, x: DocKey, k: DocKey)
    ensures
        s.push(k).contains(x) <==> (s.contains(x) || x == k),
{
    if s.contains(x) {
        let i = choose|i: int| 0 <= i < s.len() && s[i] == x;
        assert(s.push(k)[i] == x);
    }
    if x == k {
        assert(s.push(k)[s.len() as int] == x);
    }
    if s.push(k).contains(x) {
        let i = choose|i: int| 0 <= i < s.push(k).len() && s.push(k)[i] == x;
        if i < s.len() {
            assert(s[i] == x);
        }
    }
}

/// True when the vector holds the identity.
pub fn contains_key(v: &Vec<DocKey>, k: DocKey) -> (r: bool)
    ensures
        r == v@.contains(k),
{
    let mut i: usize = 0;
    while i < v.len()
        invariant
            i <= v@.len(),
            forall|j: int| 0 <= j < i ==> v@[j] != k,
        decreases v@.len() - i,
    {
        let e = v[i];
        if e.0 == k.0 && e.1 == k.1 {
            return true;
        }
        i += 1;
    }
    false
}

/// The same identities with every repeat dropped, first occurrences kept in
/// order.
pub fn dedup_keys(v: &Vec<DocKey>) -> (r: Vec<DocKey>)
    ensures
        no_dups(r@),
        forall|k: DocKey| r@.contains(k) <==> v@.contains(k),
        r@.len() <= v@.len(),
{
    let mut out: Vec<DocKey> = Vec::new();
    let mut i: usize = 0;
    while i < v.len()
        invariant
            i <= v@.len(),
            no_dups(out@),
            out@.len() <= i,
            forall|k: DocKey| out@.contains(k) <==> v@.take(i as int).contains(k),
        decreases v@.len() - i,
    {
        let k = v[i];
        let present = contains_key(&out, k);
        proof {
            assert(v@.take(i as int).push(k) =~= v@.take(i + 1));
        }
        if !present {
            let ghost prev = out@;
            out.push(k);
            proof {
                assert forall|x: DocKey| out@.contains(x) <==> v@.take(i + 1).contains(x) by {
                    lemma_contains_push(prev, x, k);
                    lemma_contains_push(v@.take(i as int), x, k);
                }
            }
        } else {
            proof {
                assert forall|x: DocKey| out@.contains(x) <==> v@.take(i + 1).contains(x) by {
                    lemma_contains_push(v@.take(i as int), x, k);
                }
            }
        }
        i += 1;
    }
    proof {
        assert(v@.take(v@.len() as int) =~= v@);
    }
    out
}

/// The identities present in both sets: the running AND-group set narrowed by
/// one more term lookup.
pub fn intersect_keys(a: &Vec<DocKey>, b: &Vec<DocKey>) -> (r: Vec<DocKey>)
    requires
        no_dups(a@),
    ensures
        no_dups(r@),
        forall|k: DocKey| r@.contains(k) <==> a@.contains(k) && b@.contains(k),
        r@.len() <= a@.len(),
{
    let mut out: Vec<DocKey> = Vec::new();
    let mut i: usize = 0;
    while i < a.len()
        invariant
            i <= a@.len(),
            no_dups(a@),
            no_dups(out@),
            out@.len() <= i,
            forall|k: DocKey|
                out@.contains(k) <==> a@.take(i as int).contains(k) && b@.contains(k),
        decreases a@.len() - i,
    {
        let k = a[i];
        let hit = contains_key(b, k);
        proof {
            assert(a@.take(i as int).push(k) =~= a@.take(i + 1));
        }
        if hit {
            let ghost prev = out@;
            out.push(k);
            proof {
                assert(forall|j: int| 0 <= j < prev.len() ==> prev[j] != k) by {
                    if exists|j: int| 0 <= j < prev.len() && prev[j] == k {
                        let j = choose|j: int| 0 <= j < prev.len() && prev[j] == k;
                        assert(prev.contains(k));
                        let m = choose|m: int|
                            0 <= m < i && a@.take(i as int)[m] == k;
                        assert(a@[m] == k && a@[i as int] == k);
                    }
                }
                assert forall|x: DocKey|
                    out@.contains(x) <==> a@.take(i + 1).contains(x) && b@.contains(x) by {
                    lemma_contains_push(prev, x, k);
                    lemma_contains_push(a@.take(i as int), x, k);
                }
            }
        } else {
            proof {
                assert forall|x: DocKey|
                    out@.contains(x) <==> a@.take(i + 1).contains(x) && b@.contains(x) by {
                    lemma_contains_push(a@.take(i as int), x, k);
                }
            }
        }
        i += 1;
    }
    proof {
        assert(a@.take(a@.len() as int) =~= a@);
    }
    out
}

/// The identities present in either set: one OR-group's result folded into
/// the running union, still without repeats.
pub fn union_keys(a: Vec<DocKey>, b: &Vec<DocKey>) -> (r: Vec<DocKey>)
    requires
        no_dups(a@),
    ensures
        no_dups(r@),
        forall|k: DocKey| r@.contains(k) <==> a@.contains(k) || b@.contains(k),
        r@.len() <= a@.len() + b@.len(),
{
    let ghost a0 = a@;
    let mut out = a;
    let mut i: usize = 0;
    while i < b.len()
        invariant
            i <= b@.len(),
            no_dups(out@),
            out@.len() <= a0.len() + i,
            forall|k: DocKey| #[trigger] out@.contains(k) <==> a0.contains(k) || b@.take(i as int).contains(k),
        decreases b@.len() - i,
    {
        let k = b[i];
        let present = contains_key(&out, k);
        proof {
            assert(b@.take(i as int).push(k) =~= b@.take(i + 1));
        }
        if !present {
            let ghost prev = out@;
            proof {
                assert(forall|x: DocKey|
                    prev.contains(x) <==> a0.contains(x) || b@.take(i as int).contains(x));
            }
            out.push(k);
            proof {
                assert forall|x: DocKey| #[trigger] out@.contains(x) <==> a0.contains(x) || b@.take(
                    i + 1,
                ).contains(x) by {
                    lemma_contains_push(prev, x, k);
                    lemma_contains_push(b@.take(i as int), x, k);
                    assert(out@ == prev.push(k));
                    assert(b@.take(i + 1) == b@.take(i as int).push(k));
                    assert(prev.contains(x) <==> a0.contains(x) || b@.take(i as int).contains(x));
                }
            }
        } else {
            proof {
                let ghost cur = out@;
                assert(forall|x: DocKey|
                    cur.contains(x) <==> a0.contains(x) || b@.take(i as int).contains(x));
                assert forall|x: DocKey| #[trigger] out@.contains(x) <==> a0.contains(x) || b@.take(
                    i + 1,
                ).contains(x) by {
                    lemma_contains_push(b@.take(i as int), x, k);
                    assert(cur.contains(x) <==> a0.contains(x) || b@.take(i as int).contains(x));
                }
            }
        }
        i += 1;
    }
    proof {
        assert(b@.take(b@.len() as int) =~= b@);
    }
    out
}

} // verus!
