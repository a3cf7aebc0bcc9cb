//! Which matches of a pattern are kept, and which are handed on for deletion.

use vstd::prelude::*;
use crate::order::{Order, Candidate, key_cmp, compare, lemma_key_cmp_props, lemma_key_cmp_trans};

verus! {

/// A count-based retention: keep the `count` highest-ranked matches.
#[derive(Clone, Copy, Debug, PartialEq, Eq, Structural)]
pub struct Retention {
    /// The key by which matches are ranked, highest first.
    pub order: Order,
    /// The number of matches to retain.
    pub count: usize,
}

/// A single-exclusion rule: keep exactly one match, chosen by an extreme key.
#[derive(Clone, Copy, Debug, PartialEq, Eq, Structural)]
pub enum Exception {
    /// Keep the match whose file name comes first in ascending order.
    FirstAscending,
    /// Keep the match whose file name comes first in descending order.
    FirstDescending,
    /// Keep the most recently modified match.
    MostRecent,
}

/// The rule by which a pattern keeps some of its matches from deletion.
#[derive(Clone, Copy, Debug, PartialEq, Eq, Structural)]
pub enum RetentionRule {
    /// Keep the `count` highest-ranked matches.
    Count(Retention),
    /// Keep the single match that the exception selects.
    Exception(Exception),
}

/// Match `i` ranks ahead of match `j`: a higher key, or an equal key and an
/// earlier place in the enumeration.
pub open spec fn ranks_before(order: Order, c: Seq<Candidate>, i: int, j: int) -> bool {
    key_cmp(order, c[i], c[j]) == 1 || (key_cmp(order, c[i], c[j]) == 0 && i < j)
}

/// `perm` lists every index of `c` once, in descending order of key, ties in
/// enumeration order: the result of a stable descending sort.
pub open spec fn is_ranking(order: Order, c: Seq<Candidate>, perm: Seq<usize>) -> bool {
    &&& perm.len() == c.len()
    &&& forall|t: int| 0 <= t < perm.len() ==> #[trigger] perm[t] < c.len()
    &&& forall|t: int, u: int| 0 <= t < u < perm.len() ==> perm[t] != perm[u]
    &&& forall|t: int|
        0 <= t < perm.len() - 1 ==> ranks_before(order, c, #[trigger] perm[t] as int, perm[t + 1] as int)
}

/// The bytes of each path in `v`.
pub open spec fn views(v: Seq<Vec<u8>>) -> Seq<Seq<u8>> {
    v.map_values(|p: Vec<u8>| p@)
}

/// The paths of the matches at the given indices, in that order.
pub open spec fn paths_at(c: Seq<Candidate>, idx: Seq<usize>) -> Seq<Seq<u8>> {
    idx.map_values(|i: usize| c[i as int].path@)
}

pub open spec fn all_paths(c: Seq<Candidate>) -> Seq<Seq<u8>> {
    c.map_values(|m: Candidate| m.path@)
}

/// What a count-based retention hands on for deletion, given the ranking: all
/// but the first `count` ranked matches, in rank order.
pub open spec fn deletions(c: Seq<Candidate>, perm: Seq<usize>, count: nat) -> Seq<Seq<u8>> {
    if count >= perm.len() {
        Seq::empty()
    } else {
        paths_at(c, perm.skip(count as int))
    }
}

/// What a count-based retention keeps, given the ranking.
pub open spec fn retained(c: Seq<Candidate>, perm: Seq<usize>, count: nat) -> Seq<Seq<u8>> {
    if count >= perm.len() {
        paths_at(c, perm)
    } else {
        paths_at(c, perm.take(count as int))
    }
}

/// The result of a count-based retention over the matches `c`.
pub open spec fn is_retention_result(r: Retention, c: Seq<Candidate>, out: Seq<Seq<u8>>) -> bool {
    exists|perm: Seq<usize>| is_ranking(r.order, c, perm) && out == deletions(c, perm, r.count as nat)
}

/// The key and direction that an exception selects by.
pub open spec fn exception_order(x: Exception) -> Order {
    match x {
        Exception::MostRecent => Order::Modified,
        _ => Order::FileName,
    }
}

/// Match `a` is strictly more extreme than `b` in the sense of the exception.
pub open spec fn beats(x: Exception, a: Candidate, b: Candidate) -> bool {
    match x {
        Exception::FirstAscending => key_cmp(Order::FileName, a, b) == -1,
        Exception::FirstDescending => key_cmp(Order::FileName, a, b) == 1,
        Exception::MostRecent => key_cmp(Order::Modified, a, b) == 1,
    }
}

/// Index `e` is the first match of `c` that no other match beats.
pub open spec fn is_exempt(x: Exception, c: Seq<Candidate>, e: int) -> bool {
    &&& 0 <= e < c.len()
    &&& forall|j: int| 0 <= j < e ==> beats(x, #[trigger] c[e], c[j])
    &&& forall|j: int| e < j < c.len() ==> !beats(x, #[trigger] c[j], c[e])
}

/// The result of an exception over the matches `c`: nothing when there is no
/// match, else every match but the exempt one, in enumeration order.
pub open spec fn is_exception_result(x: Exception, c: Seq<Candidate>, out: Seq<Seq<u8>>) -> bool {
    if c.len() == 0 {
        out.len() == 0
    } else {
        exists|e: int| is_exempt(x, c, e) && out == all_paths(c).remove(e)
    }
}

/// Inserting match `i` at the first place whose match it outranks by key
/// keeps a ranking of the first `i` matches a ranking of the first `i + 1`.
proof fn lemma_insert_ranked(order: Order, c: Seq<Candidate>, old_perm: Seq<usize>, p: int, i: usize)
    requires
        0 <= p <= i < c.len(),
        old_perm.len() == i,
        forall|t: int| 0 <= t < i ==> #[trigger] old_perm[t] < i,
        forall|t: int, u: int| 0 <= t < u < i ==> old_perm[t] != old_perm[u],
        forall|t: int|
            0 <= t < i - 1 ==> ranks_before(order, c, #[trigger] old_perm[t] as int, old_perm[t + 1] as int),
        forall|t: int| 0 <= t < p ==> key_cmp(order, c[i as int], c[#[trigger] old_perm[t] as int]) != 1,
        p < i ==> key_cmp(order, c[i as int], c[old_perm[p] as int]) == 1,
    ensures
        forall|t: int| 0 <= t < i + 1 ==> #[trigger] old_perm.insert(p, i)[t] < i + 1,
        forall|t: int, u: int| 0 <= t < u < i + 1 ==> old_perm.insert(p, i)[t] != old_perm.insert(p, i)[u],
        forall|t: int|
            0 <= t < i ==> ranks_before(order, c, #[trigger] old_perm.insert(p, i)[t] as int, old_perm.insert(p, i)[t + 1] as int),
{
    let perm = old_perm.insert(p, i);
    assert forall|t: int| 0 <= t < i implies ranks_before(order, c, #[trigger] perm[t] as int, perm[t + 1] as int) by {
        if t < p - 1 {
            assert(perm[t] == old_perm[t] && perm[t + 1] == old_perm[t + 1]);
        } else if t == p - 1 {
            assert(perm[t] == old_perm[p - 1] && perm[t + 1] == i);
            lemma_key_cmp_props(order, c[i as int], c[old_perm[p - 1] as int]);
        } else if t == p {
            assert(perm[t] == i && perm[t + 1] == old_perm[p]);
        } else {
            assert(perm[t] == old_perm[t - 1] && perm[t + 1] == old_perm[t]);
        }
    }
    assert forall|t: int, u: int| 0 <= t < u < i + 1 implies perm[t] != perm[u] by {
        if t < p && u < p {
        } else if t < p && u == p {
            assert(old_perm[t] < i);
        } else if t < p {
            assert(perm[u] == old_perm[u - 1]);
        } else if t == p {
            assert(perm[u] == old_perm[u - 1]);
            assert(old_perm[u - 1] < i);
        } else {
            assert(perm[t] == old_perm[t - 1] && perm[u] == old_perm[u - 1]);
        }
    }
    assert forall|t: int| 0 <= t < i + 1 implies #[trigger] perm[t] < i + 1 by {
        if t < p {
            assert(perm[t] == old_perm[t]);
        } else if t > p {
            assert(perm[t] == old_perm[t - 1]);
        }
    }
}

/// Ranks the matches: a stable sort of their indices, highest key first.
pub fn rank(order: Order, c: &Vec<Candidate>) -> (perm: Vec<usize>)
    ensures
        is_ranking(order, c@, perm@),
{
    let mut perm: Vec<usize> = Vec::new();
    let mut i: usize = 0;
    while i < c.len()
        invariant
            i <= c.len(),
            perm@.len() == i,
            forall|t: int| 0 <= t < i ==> #[trigger] perm@[t] < i,
            forall|t: int, u: int| 0 <= t < u < i ==> perm@[t] != perm@[u],
            forall|t: int|
                0 <= t < i - 1 ==> ranks_before(order, c@, #[trigger] perm@[t] as int, perm@[t + 1] as int),
        decreases c.len() - i,
    {
        let mut p: usize = 0;
        while p < perm.len()
            invariant
                i < c.len(),
                perm@.len() == i,
                p <= i,
                forall|t: int| 0 <= t < i ==> #[trigger] perm@[t] < i,
                forall|t: int| 0 <= t < p ==> key_cmp(order, c@[i as int], c@[#[trigger] perm@[t] as int]) != 1,
            ensures
                p <= i,
                forall|t: int| 0 <= t < p ==> key_cmp(order, c@[i as int], c@[#[trigger] perm@[t] as int]) != 1,
                p < i ==> key_cmp(order, c@[i as int], c@[perm@[p as int] as int]) == 1,
            decreases i - p,
        {
            if compare(order, &c[i], &c[perm[p]]) == 1 {
                break;
            }
            p += 1;
        }
        let ghost old_perm = perm@;
        perm.insert(p, i);
        proof {
            lemma_insert_ranked(order, c@, old_perm, p as int, i);
        }
        i += 1;
    }
    perm
}

/// The paths that a pattern hands on for deletion, given its matches: every
/// match in enumeration order without a rule, else what the rule leaves.
pub open spec fn is_selection(rule: Option<RetentionRule>, c: Seq<Candidate>, out: Seq<Seq<u8>>) -> bool {
    match rule {
        None => out == all_paths(c),
        Some(RetentionRule::Count(r)) => is_retention_result(r, c, out),
        Some(RetentionRule::Exception(x)) => is_exception_result(x, c, out),
    }
}

/// Applies a count-based retention: ranks the matches and hands on all but the
/// `count` highest-ranked, in rank order.
pub fn apply_retention(r: Retention, c: &Vec<Candidate>) -> (out: Vec<Vec<u8>>)
    ensures
        is_retention_result(r, c@, views(out@)),
        out@.len() == if r.count >= c@.len() { 0 } else { c@.len() - r.count },
{
    let perm = rank(r.order, c);
    let mut out: Vec<Vec<u8>> = Vec::new();
    let mut t: usize = r.count;
    if t < perm.len() {
        while t < perm.len()
            invariant
                r.count <= t <= perm@.len(),
                is_ranking(r.order, c@, perm@),
                views(out@) == paths_at(c@, perm@.subrange(r.count as int, t as int)),
            decreases perm@.len() - t,
        {
            let ghost before = out@;
            out.push(c[perm[t]].path.clone());
            proof {
                assert(views(out@) =~= views(before).push(c@[perm@[t as int] as int].path@));
                assert(perm@.subrange(r.count as int, t + 1) =~= perm@.subrange(r.count as int, t as int).push(perm@[t as int]));
            }
            t += 1;
        }
        assert(perm@.subrange(r.count as int, perm@.len() as int) =~= perm@.skip(r.count as int));
    } else {
        assert(views(out@) =~= Seq::<Seq<u8>>::empty());
    }
    assert(is_ranking(r.order, c@, perm@) && views(out@) == deletions(c@, perm@, r.count as nat));
    out
}

proof fn lemma_beats_trans(x: Exception, a: Candidate, b: Candidate, d: Candidate)
    requires
        beats(x, a, b),
        beats(x, b, d) || !beats(x, d, b),
    ensures
        beats(x, a, d),
{
    let o = exception_order(x);
    lemma_key_cmp_props(o, a, b);
    lemma_key_cmp_props(o, b, d);
    lemma_key_cmp_props(o, a, d);
    match x {
        Exception::FirstAscending => lemma_key_cmp_trans(o, d, b, a),
        _ => lemma_key_cmp_trans(o, a, b, d),
    }
}

fn beats_exec(x: Exception, a: &Candidate, b: &Candidate) -> (r: bool)
    ensures
        r == beats(x, *a, *b),
{
    match x {
        Exception::FirstAscending => compare(Order::FileName, a, b) == -1,
        Exception::FirstDescending => compare(Order::FileName, a, b) == 1,
        Exception::MostRecent => compare(Order::Modified, a, b) == 1,
    }
}

/// Finds the exempt match: the first one that no other match beats.
pub fn find_exempt(x: Exception, c: &Vec<Candidate>) -> (e: usize)
    requires
        c@.len() > 0,
    ensures
        is_exempt(x, c@, e as int),
{
    let mut best: usize = 0;
    let mut k: usize = 1;
    while k < c.len()
        invariant
            0 <= best < k <= c@.len(),
            forall|j: int| 0 <= j < best ==> beats(x, c@[best as int], #[trigger] c@[j]),
            forall|j: int| best < j < k ==> !beats(x, #[trigger] c@[j], c@[best as int]),
        decreases c@.len() - k,
    {
        if beats_exec(x, &c[k], &c[best]) {
            proof {
                assert forall|j: int| 0 <= j < k implies beats(x, c@[k as int], #[trigger] c@[j]) by {
                    if j != best {
                        lemma_beats_trans(x, c@[k as int], c@[best as int], c@[j]);
                    }
                }
            }
            best = k;
        }
        k += 1;
    }
    best
}

/// Applies an exception: hands on every match but the exempt one, and nothing
/// when there is no match.
pub fn apply_exception(x: Exception, c: &Vec<Candidate>) -> (out: Vec<Vec<u8>>)
    ensures
        is_exception_result(x, c@, views(out@)),
{
    let mut out: Vec<Vec<u8>> = Vec::new();
    if c.len() == 0 {
        return out;
    }
    let e = find_exempt(x, c);
    let mut k: usize = 0;
    while k < c.len()
        invariant
            0 <= e < c@.len(),
            k <= c@.len(),
            views(out@) == if k <= e { all_paths(c@).take(k as int) } else { all_paths(c@).remove(e as int).take(k - 1) },
        decreases c@.len() - k,
    {
        let ghost before = out@;
        if k != e {
            out.push(c[k].path.clone());
        }
        proof {
            if k != e {
                assert(views(out@) =~= views(before).push(c@[k as int].path@));
            }
            let a = all_paths(c@);
            if k < e {
                assert(a.take(k + 1) =~= a.take(k as int).push(a[k as int]));
            } else if k == e {
                assert(a.take(k as int) =~= a.remove(e as int).take(k as int));
            } else {
                assert(a.remove(e as int).take(k as int) =~= a.remove(e as int).take(k - 1).push(a[k as int]));
            }
        }
        k += 1;
    }
    assert(views(out@) =~= all_paths(c@).remove(e as int));
    out
}

/// Hands on the paths of the matches that a pattern's rule does not retain.
pub fn select(c: &Vec<Candidate>, rule: Option<RetentionRule>) -> (out: Vec<Vec<u8>>)
    ensures
        is_selection(rule, c@, views(out@)),
{
    match rule {
        Some(RetentionRule::Count(r)) => apply_retention(r, c),
        Some(RetentionRule::Exception(x)) => apply_exception(x, c),
        None => {
            let mut out: Vec<Vec<u8>> = Vec::new();
            let mut k: usize = 0;
            while k < c.len()
                invariant
                    k <= c@.len(),
                    views(out@) == all_paths(c@).take(k as int),
                decreases c@.len() - k,
            {
                let ghost before = out@;
                out.push(c[k].path.clone());
                assert(views(out@) =~= views(before).push(c@[k as int].path@));
                assert(all_paths(c@).take(k + 1) =~= all_paths(c@).take(k as int).push(c@[k as int].path@));
                k += 1;
            }
            assert(views(out@) =~= all_paths(c@));
            out
        },
    }
}

/// In a ranking, each match ranks at least as high by key as every match after it.
pub proof fn lemma_ranking_sorted(order: Order, c: Seq<Candidate>, perm: Seq<usize>, t: int, u: int)
    requires
        is_ranking(order, c, perm),
        0 <= t < u < perm.len(),
    ensures
        key_cmp(order, c[perm[t] as int], c[perm[u] as int]) >= 0,
    decreases u - t,
{
    assert(ranks_before(order, c, perm[u - 1] as int, perm[u] as int));
    if u > t + 1 {
        lemma_ranking_sorted(order, c, perm, t, u - 1);
        lemma_key_cmp_trans(order, c[perm[t] as int], c[perm[u - 1] as int], c[perm[u] as int]);
    }
}

/// A count-based retention over `n` matches hands on exactly `max(0, n - count)`
/// of them, keeps the others, and each match it keeps ranks at least as high by
/// key as each match it hands on.
pub proof fn retention_keeps_the_top(r: Retention, c: Seq<Candidate>, out: Seq<Seq<u8>>)
    requires
        is_retention_result(r, c, out),
    ensures
        out.len() == if r.count >= c.len() { 0 } else { c.len() - r.count },
        exists|perm: Seq<usize>|
            #![trigger is_ranking(r.order, c, perm)]
            is_ranking(r.order, c, perm) && out == deletions(c, perm, r.count as nat) && ({
                let kept = retained(c, perm, r.count as nat);
                &&& kept.len() + out.len() == c.len()
                &&& forall|t: int, u: int|
                    0 <= t < r.count && r.count <= u < c.len() ==> key_cmp(r.order, c[#[trigger] perm[t] as int], c[#[trigger] perm[u] as int]) >= 0
            }),
{
    let perm = choose|perm: Seq<usize>| is_ranking(r.order, c, perm) && out == deletions(c, perm, r.count as nat);
    assert forall|t: int, u: int|
        0 <= t < r.count && r.count <= u < c.len() implies key_cmp(r.order, c[#[trigger] perm[t] as int], c[#[trigger] perm[u] as int]) >= 0 by {
        lemma_ranking_sorted(r.order, c, perm, t, u);
    }
}

/// A count-based retention whose count reaches the number of matches hands on
/// nothing.
pub proof fn retention_of_all_deletes_nothing(r: Retention, c: Seq<Candidate>, out: Seq<Seq<u8>>)
    requires
        is_retention_result(r, c, out),
        r.count >= c.len(),
    ensures
        out.len() == 0,
{
}

/// An exception hands on nothing when there is no match, and otherwise keeps
/// exactly one match.
pub proof fn exception_keeps_one(x: Exception, c: Seq<Candidate>, out: Seq<Seq<u8>>)
    requires
        is_exception_result(x, c, out),
    ensures
        c.len() == 0 ==> out.len() == 0,
        c.len() > 0 ==> out.len() == c.len() - 1,
{
}

} // verus!
