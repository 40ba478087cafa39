//! Relevance ranking: duplicates (by id) are dropped keeping the first
//! occurrence, the rest is ordered by score, highest first and stable among
//! equal scores, and cut to the limit.
use vstd::prelude::*;

use crate::models::{
    ConstraintRecord, ConstraintView, ContextRetrieveRequest, FactRecord, FactView,
    FailurePatternRecord, FailurePatternView, ObservationRecord, ObservationView, PlaybookRecord,
    PlaybookView, Duplicate, opt_str, opt_view, views,
};
use crate::text::text_eq;

verus! {

/// The score of a record: whether it is scoped to the requested resource (or
/// error family), whether it is unscoped, a weight (the confidence's rank, the
/// confidence times 1000, or the occurrence count) and a time in whole seconds
/// since the epoch (chrono's `timestamp()`). Scores compare
/// lexicographically, `false` below `true`.
#[derive(Clone, Copy)]
pub struct RankKey {
    pub scoped: bool,
    pub unscoped: bool,
    pub weight: u64,
    pub time: i64,
}

/// `a` scores at least as high as `b`.
pub open spec fn key_ge(a: RankKey, b: RankKey) -> bool {
    if a.scoped != b.scoped {
        a.scoped
    } else if a.unscoped != b.unscoped {
        a.unscoped
    } else if a.weight != b.weight {
        a.weight > b.weight
    } else {
        a.time >= b.time
    }
}

fn key_ge_exec(a: &RankKey, b: &RankKey) -> (r: bool)
    ensures
        r == key_ge(*a, *b),
{
    if a.scoped != b.scoped {
        a.scoped
    } else if a.unscoped != b.unscoped {
        a.unscoped
    } else if a.weight != b.weight {
        a.weight > b.weight
    } else {
        a.time >= b.time
    }
}

// ---------------------------------------------------------------------------
// Ranking over indices
// ---------------------------------------------------------------------------

/// Some earlier position holds the same id as position `i`.
pub open spec fn seen_before(ids: Seq<Seq<char>>, i: int) -> bool {
    exists|j: int| 0 <= j < i && #[trigger] ids[j] == ids[i]
}

/// Positions whose id has not occurred earlier and whose `keep` flag is set,
/// in increasing order.
pub open spec fn candidates(ids: Seq<Seq<char>>, keep: Seq<bool>) -> Seq<int>
    decreases ids.len(),
{
    if ids.len() == 0 {
        seq![]
    } else {
        let i = ids.len() - 1;
        let rest = candidates(ids.drop_last(), keep);
        if !seen_before(ids, i) && keep[i] {
            rest.push(i)
        } else {
            rest
        }
    }
}

/// Inserts `x` into `sorted` after every element scoring at least as high.
pub open spec fn insert_desc(sorted: Seq<int>, x: int, keys: Seq<RankKey>) -> Seq<int>
    decreases sorted.len(),
{
    if sorted.len() == 0 {
        seq![x]
    } else if key_ge(keys[sorted.last()], keys[x]) {
        sorted.push(x)
    } else {
        insert_desc(sorted.drop_last(), x, keys).push(sorted.last())
    }
}

/// Stable sort by score, highest first.
pub open spec fn sort_desc(s: Seq<int>, keys: Seq<RankKey>) -> Seq<int>
    decreases s.len(),
{
    if s.len() == 0 {
        seq![]
    } else {
        insert_desc(sort_desc(s.drop_last(), keys), s.last(), keys)
    }
}

/// The positions of the ranked result: candidates sorted by score and cut to `limit`.
pub open spec fn ranked(
    ids: Seq<Seq<char>>,
    keep: Seq<bool>,
    keys: Seq<RankKey>,
    limit: nat,
) -> Seq<int> {
    let s = sort_desc(candidates(ids, keep), keys);
    if limit < s.len() {
        s.subrange(0, limit as int)
    } else {
        s
    }
}

pub open spec fn as_ints(v: Seq<usize>) -> Seq<int> {
    v.map_values(|x: usize| x as int)
}

proof fn lemma_seen_before_prefix(ids: Seq<Seq<char>>, n: int, i: int)
    requires
        0 <= i < n <= ids.len(),
    ensures
        seen_before(ids.subrange(0, n), i) == seen_before(ids, i),
{
    let p = ids.subrange(0, n);
    if seen_before(ids, i) {
        let j = choose|j: int| 0 <= j < i && #[trigger] ids[j] == ids[i];
        assert(p[j] == p[i]);
    }
    if seen_before(p, i) {
        let j = choose|j: int| 0 <= j < i && #[trigger] p[j] == p[i];
        assert(ids[j] == ids[i]);
    }
}

proof fn lemma_insert_at(s: Seq<int>, x: int, keys: Seq<RankKey>, pos: int)
    requires
        0 <= pos <= s.len(),
        forall|j: int| pos <= j < s.len() ==> !key_ge(#[trigger] keys[s[j]], keys[x]),
        pos > 0 ==> key_ge(keys[s[pos - 1]], keys[x]),
    ensures
        insert_desc(s, x, keys) == s.insert(pos, x),
    decreases s.len(),
{
    if s.len() == 0 {
        assert(s.insert(pos, x) =~= seq![x]);
    } else if pos == s.len() {
        assert(s.insert(pos, x) =~= s.push(x));
    } else {
        let last = s.len() - 1;
        assert(!key_ge(keys[s[last]], keys[x]));
        let d = s.drop_last();
        assert forall|j: int| pos <= j < d.len() implies !key_ge(#[trigger] keys[d[j]], keys[x]) by {
            assert(d[j] == s[j]);
        }
        lemma_insert_at(d, x, keys, pos);
        assert(d.insert(pos, x).push(s.last()) =~= s.insert(pos, x));
    }
}

/// The ranked positions for ids, keep flags, scores and a limit.
pub fn rank_order(ids: &Vec<&str>, keep: &Vec<bool>, keys: &Vec<RankKey>, limit: usize) -> (r: Vec<
    usize,
>)
    requires
        ids@.len() == keep@.len(),
        ids@.len() == keys@.len(),
    ensures
        as_ints(r@) == ranked(ids@.map_values(|s: &str| s@), keep@, keys@, limit as nat),
        forall|k: int| 0 <= k < r@.len() ==> r@[k] < ids@.len(),
{
    let ghost sids = ids@.map_values(|s: &str| s@);
    let n = ids.len();
    // Phase 1: first occurrences that are kept.
    let mut cand: Vec<usize> = Vec::new();
    let mut i: usize = 0;
    while i < n
        invariant
            n == ids@.len(),
            n == keep@.len(),
            sids == ids@.map_values(|s: &str| s@),
            0 <= i <= n,
            as_ints(cand@) == candidates(sids.subrange(0, i as int), keep@),
            forall|k: int| 0 <= k < cand@.len() ==> cand@[k] < i,
        decreases n - i,
    {
        let mut seen = false;
        let mut j: usize = 0;
        while j < i
            invariant
                n == ids@.len(),
                sids == ids@.map_values(|s: &str| s@),
                0 <= j <= i < n,
                seen == (exists|k: int| 0 <= k < j && #[trigger] sids[k] == sids[i as int]),
            decreases i - j,
        {
            let same = text_eq(ids[j], ids[i]);
            assert(sids[j as int] == ids@[j as int]@ && sids[i as int] == ids@[i as int]@);
            if same {
                seen = true;
            }
            assert(seen == (exists|k: int| 0 <= k < j + 1 && #[trigger] sids[k] == sids[i as int]))
                by {
                if sids[j as int] == sids[i as int] {
                    assert(0 <= j < j + 1);
                }
            }
            j = j + 1;
        }
        let ghost pre = sids.subrange(0, i + 1);
        proof {
            lemma_seen_before_prefix(sids, i + 1, i as int);
            assert(pre.drop_last() =~= sids.subrange(0, i as int));
        }
        if !seen && keep[i] {
            let ghost before = as_ints(cand@);
            cand.push(i);
            assert(as_ints(cand@) =~= before.push(i as int));
        }
        i = i + 1;
    }
    assert(sids.subrange(0, n as int) =~= sids);
    // Phase 2: stable insertion sort, highest score first.
    let ghost cs = as_ints(cand@);
    let mut res: Vec<usize> = Vec::new();
    let mut k: usize = 0;
    while k < cand.len()
        invariant
            n == ids@.len(),
            n == keys@.len(),
            cs == as_ints(cand@),
            forall|q: int| 0 <= q < cand@.len() ==> cand@[q] < n,
            0 <= k <= cand@.len(),
            as_ints(res@) == sort_desc(cs.subrange(0, k as int), keys@),
            forall|q: int| 0 <= q < res@.len() ==> res@[q] < n,
        decreases cand.len() - k,
    {
        let x = cand[k];
        let mut pos = res.len();
        while pos > 0 && !key_ge_exec(&keys[res[pos - 1]], &keys[x])
            invariant
                n == keys@.len(),
                x < n,
                forall|q: int| 0 <= q < res@.len() ==> res@[q] < n,
                0 <= pos <= res@.len(),
                forall|j: int|
                    pos <= j < res@.len() ==> !key_ge(#[trigger] keys@[res@[j] as int], keys@[x as int]),
            decreases pos,
        {
            pos = pos - 1;
        }
        let ghost before = as_ints(res@);
        proof {
            assert forall|j: int| pos <= j < before.len() implies !key_ge(
                #[trigger] keys@[before[j]],
                keys@[x as int],
            ) by {
                assert(before[j] == res@[j] as int);
            }
            if pos > 0 {
                assert(before[pos - 1] == res@[pos - 1] as int);
            }
            lemma_insert_at(before, x as int, keys@, pos as int);
            assert(cs.subrange(0, k + 1).drop_last() =~= cs.subrange(0, k as int));
            assert(cs.subrange(0, k + 1).last() == x as int);
        }
        res.insert(pos, x);
        assert(as_ints(res@) =~= before.insert(pos as int, x as int));
        k = k + 1;
    }
    assert(cs.subrange(0, cand@.len() as int) =~= cs);
    let ghost full = as_ints(res@);
    res.truncate(limit);
    assert(as_ints(res@) =~= (if (limit as nat) < full.len() {
        full.subrange(0, limit as int)
    } else {
        full
    }));
    res
}

// ---------------------------------------------------------------------------
// What every ranking guarantees
// ---------------------------------------------------------------------------

/// Positions are listed in order of non-increasing score.
pub open spec fn sorted_desc(t: Seq<int>, keys: Seq<RankKey>) -> bool {
    forall|i: int, j: int|
        0 <= i < j < t.len() ==> key_ge(#[trigger] keys[t[i]], #[trigger] keys[t[j]])
}

/// No position occurs twice.
pub open spec fn no_dup(t: Seq<int>) -> bool {
    forall|i: int, j: int| 0 <= i < j < t.len() ==> #[trigger] t[i] != #[trigger] t[j]
}

/// Position `i` is a candidate: in range, kept, and the first with its id.
pub open spec fn is_candidate(ids: Seq<Seq<char>>, keep: Seq<bool>, i: int) -> bool {
    0 <= i < ids.len() && keep[i] && !seen_before(ids, i)
}

proof fn lemma_key_ge_total(a: RankKey, b: RankKey)
    ensures
        key_ge(a, b) || key_ge(b, a),
{
}

proof fn lemma_key_ge_trans(a: RankKey, b: RankKey, c: RankKey)
    requires
        key_ge(a, b),
        key_ge(b, c),
    ensures
        key_ge(a, c),
{
}

proof fn lemma_candidates(ids: Seq<Seq<char>>, keep: Seq<bool>)
    requires
        keep.len() >= ids.len(),
    ensures
        forall|k: int|
            0 <= k < candidates(ids, keep).len() ==> is_candidate(
                ids,
                keep,
                #[trigger] candidates(ids, keep)[k],
            ),
        forall|k1: int, k2: int|
            0 <= k1 < k2 < candidates(ids, keep).len() ==> #[trigger] candidates(ids, keep)[k1]
                < #[trigger] candidates(ids, keep)[k2],
        forall|i: int| is_candidate(ids, keep, i) ==> #[trigger] candidates(ids, keep).contains(i),
    decreases ids.len(),
{
    if ids.len() > 0 {
        let d = ids.drop_last();
        let n = ids.len() - 1;
        lemma_candidates(d, keep);
        assert(d =~= ids.subrange(0, n));
        let c = candidates(ids, keep);
        let cd = candidates(d, keep);
        assert forall|i: int| 0 <= i < n implies seen_before(d, i) == seen_before(ids, i) by {
            lemma_seen_before_prefix(ids, n, i);
        }
        assert forall|k: int| 0 <= k < cd.len() implies is_candidate(ids, keep, #[trigger] cd[k]) by {
            assert(is_candidate(d, keep, cd[k]));
        }
        assert forall|i: int| is_candidate(ids, keep, i) implies #[trigger] c.contains(i) by {
            if i < n {
                assert(is_candidate(d, keep, i));
                assert(cd.contains(i));
                let w = choose|w: int| 0 <= w < cd.len() && cd[w] == i;
                assert(c[w] == i);
            } else {
                assert(c.last() == i);
            }
        }
        assert forall|k: int| 0 <= k < cd.len() implies #[trigger] cd[k] < n by {
            assert(is_candidate(d, keep, cd[k]));
        }
    }
}

proof fn lemma_insert_shape(t: Seq<int>, x: int, keys: Seq<RankKey>)
    ensures
        exists|pos: int| 0 <= pos <= t.len() && insert_desc(t, x, keys) == t.insert(pos, x),
    decreases t.len(),
{
    if t.len() == 0 {
        assert(insert_desc(t, x, keys) == t.insert(0, x));
    } else if key_ge(keys[t.last()], keys[x]) {
        assert(insert_desc(t, x, keys) =~= t.insert(t.len() as int, x));
    } else {
        let d = t.drop_last();
        lemma_insert_shape(d, x, keys);
        let pos = choose|pos: int| 0 <= pos <= d.len() && insert_desc(d, x, keys) == d.insert(pos, x);
        assert(insert_desc(t, x, keys) =~= t.insert(pos, x));
    }
}

proof fn lemma_insert_sorted(t: Seq<int>, x: int, keys: Seq<RankKey>)
    requires
        sorted_desc(t, keys),
        0 <= x < keys.len(),
        forall|k: int| 0 <= k < t.len() ==> 0 <= #[trigger] t[k] < keys.len(),
    ensures
        sorted_desc(insert_desc(t, x, keys), keys),
    decreases t.len(),
{
    if t.len() == 0 {
    } else if key_ge(keys[t.last()], keys[x]) {
        let r = t.push(x);
        assert forall|i: int, j: int| 0 <= i < j < r.len() implies key_ge(
            #[trigger] keys[r[i]],
            #[trigger] keys[r[j]],
        ) by {
            if j == t.len() && i < t.len() - 1 {
                assert(key_ge(keys[t[i]], keys[t[t.len() - 1]]));
                lemma_key_ge_trans(keys[t[i]], keys[t.last()], keys[x]);
            }
        }
    } else {
        let d = t.drop_last();
        assert(sorted_desc(d, keys)) by {
            assert forall|i: int, j: int| 0 <= i < j < d.len() implies key_ge(
                #[trigger] keys[d[i]],
                #[trigger] keys[d[j]],
            ) by {
                assert(d[i] == t[i] && d[j] == t[j]);
            }
        }
        lemma_insert_sorted(d, x, keys);
        lemma_insert_shape(d, x, keys);
        let pos = choose|pos: int| 0 <= pos <= d.len() && insert_desc(d, x, keys) == d.insert(pos, x);
        let rp = insert_desc(d, x, keys);
        let r = rp.push(t.last());
        lemma_key_ge_total(keys[t.last()], keys[x]);
        assert forall|i: int| 0 <= i < rp.len() implies key_ge(#[trigger] keys[rp[i]], keys[t.last()]) by {
            if i < pos {
                assert(rp[i] == d[i]);
                assert(key_ge(keys[t[i]], keys[t[t.len() - 1]]));
            } else if i > pos {
                assert(rp[i] == d[i - 1]);
                assert(key_ge(keys[t[i - 1]], keys[t[t.len() - 1]]));
            }
        }
        assert forall|i: int, j: int| 0 <= i < j < r.len() implies key_ge(
            #[trigger] keys[r[i]],
            #[trigger] keys[r[j]],
        ) by {
            if j == rp.len() {
                assert(key_ge(keys[rp[i]], keys[t.last()]));
            } else {
                assert(r[i] == rp[i] && r[j] == rp[j]);
            }
        }
    }
}

proof fn lemma_sort(s: Seq<int>, keys: Seq<RankKey>)
    requires
        forall|k: int| 0 <= k < s.len() ==> 0 <= #[trigger] s[k] < keys.len(),
    ensures
        sort_desc(s, keys).len() == s.len(),
        forall|v: int| #[trigger] sort_desc(s, keys).contains(v) <==> s.contains(v),
        no_dup(s) ==> no_dup(sort_desc(s, keys)),
        sorted_desc(sort_desc(s, keys), keys),
    decreases s.len(),
{
    if s.len() > 0 {
        let d = s.drop_last();
        let x = s.last();
        lemma_sort(d, keys);
        let sd = sort_desc(d, keys);
        lemma_insert_shape(sd, x, keys);
        let pos = choose|pos: int| 0 <= pos <= sd.len() && insert_desc(sd, x, keys) == sd.insert(pos, x);
        let r = sd.insert(pos, x);
        assert forall|k: int| 0 <= k < sd.len() implies 0 <= #[trigger] sd[k] < keys.len() by {
            assert(sd.contains(sd[k]));
            assert(d.contains(sd[k]));
        }
        lemma_insert_sorted(sd, x, keys);
        assert forall|v: int| #[trigger] r.contains(v) <==> s.contains(v) by {
            if r.contains(v) {
                let w = choose|w: int| 0 <= w < r.len() && r[w] == v;
                if w < pos {
                    assert(sd.contains(sd[w]));
                    let u = choose|u: int| 0 <= u < d.len() && d[u] == v;
                    assert(s[u] == v);
                } else if w > pos {
                    assert(sd.contains(sd[w - 1]));
                    let u = choose|u: int| 0 <= u < d.len() && d[u] == v;
                    assert(s[u] == v);
                } else {
                    assert(s[s.len() - 1] == v);
                }
            }
            if s.contains(v) {
                let u = choose|u: int| 0 <= u < s.len() && s[u] == v;
                if u < s.len() - 1 {
                    assert(d[u] == v);
                    assert(sd.contains(v));
                    let w = choose|w: int| 0 <= w < sd.len() && sd[w] == v;
                    if w < pos {
                        assert(r[w] == v);
                    } else {
                        assert(r[w + 1] == v);
                    }
                } else {
                    assert(r[pos] == v);
                }
            }
        }
        if no_dup(s) {
            assert(no_dup(d)) by {
                assert forall|i: int, j: int| 0 <= i < j < d.len() implies #[trigger] d[i]
                    != #[trigger] d[j] by {
                    assert(d[i] == s[i] && d[j] == s[j]);
                }
            }
            assert(!sd.contains(x)) by {
                if sd.contains(x) {
                    assert(d.contains(x));
                    let u = choose|u: int| 0 <= u < d.len() && d[u] == x;
                    assert(s[u] == s[s.len() - 1]);
                }
            }
            assert forall|i: int, j: int| 0 <= i < j < r.len() implies #[trigger] r[i]
                != #[trigger] r[j] by {
                if i == pos {
                    assert(r[j] == sd[j - 1]);
                    assert(sd.contains(sd[j - 1]));
                } else if j == pos {
                    assert(r[i] == sd[i]);
                    assert(sd.contains(sd[i]));
                } else {
                    let i2 = if i < pos { i } else { i - 1 };
                    let j2 = if j < pos { j } else { j - 1 };
                    assert(r[i] == sd[i2] && r[j] == sd[j2]);
                }
            }
        }
    }
}

/// What every ranked result satisfies: at most `limit` positions, as many as
/// there are candidates up to the limit; each a kept first occurrence of its
/// id, so no id occurs twice; ordered by score, highest first; and no
/// candidate left out scores higher than one that was kept.
pub proof fn law_ranked(ids: Seq<Seq<char>>, keep: Seq<bool>, keys: Seq<RankKey>, limit: nat)
    requires
        keep.len() == ids.len(),
        keys.len() == ids.len(),
    ensures
        ({
            let r = ranked(ids, keep, keys, limit);
            let n = candidates(ids, keep).len();
            &&& r.len() == if limit < n {
                limit as int
            } else {
                n as int
            }
            &&& forall|k: int| 0 <= k < r.len() ==> is_candidate(ids, keep, #[trigger] r[k])
            &&& forall|a: int, b: int|
                0 <= a < b < r.len() ==> ids[#[trigger] r[a]] != ids[#[trigger] r[b]]
            &&& sorted_desc(r, keys)
            &&& forall|c: int, k: int|
                is_candidate(ids, keep, c) && !r.contains(c) && 0 <= k < r.len() ==> key_ge(
                    keys[#[trigger] r[k]],
                    #[trigger] keys[c],
                )
            &&& forall|c: int|
                is_candidate(ids, keep, c) && !(#[trigger] r.contains(c)) ==> r.len() == limit
        }),
{
    let cand = candidates(ids, keep);
    lemma_candidates(ids, keep);
    assert(no_dup(cand)) by {
        assert forall|i: int, j: int| 0 <= i < j < cand.len() implies #[trigger] cand[i]
            != #[trigger] cand[j] by {
            assert(cand[i] < cand[j]);
        }
    }
    assert forall|k: int| 0 <= k < cand.len() implies 0 <= #[trigger] cand[k] < keys.len() by {
        assert(is_candidate(ids, keep, cand[k]));
    }
    lemma_sort(cand, keys);
    let s = sort_desc(cand, keys);
    let r = ranked(ids, keep, keys, limit);
    assert forall|k: int| 0 <= k < r.len() implies is_candidate(ids, keep, #[trigger] r[k]) by {
        assert(r[k] == s[k]);
        assert(s.contains(s[k]));
        let w = choose|w: int| 0 <= w < cand.len() && cand[w] == s[k];
    }
    assert forall|a: int, b: int| 0 <= a < b < r.len() implies ids[#[trigger] r[a]] != ids[#[trigger] r[b]] by {
        assert(r[a] == s[a] && r[b] == s[b]);
        assert(is_candidate(ids, keep, r[a]) && is_candidate(ids, keep, r[b]));
        assert(r[a] != r[b]);
        if r[a] < r[b] {
            if ids[r[a]] == ids[r[b]] {
                assert(seen_before(ids, r[b]));
            }
        } else {
            if ids[r[a]] == ids[r[b]] {
                assert(seen_before(ids, r[a]));
            }
        }
    }
    assert(sorted_desc(r, keys)) by {
        assert forall|i: int, j: int| 0 <= i < j < r.len() implies key_ge(
            #[trigger] keys[r[i]],
            #[trigger] keys[r[j]],
        ) by {
            assert(r[i] == s[i] && r[j] == s[j]);
        }
    }
    assert forall|c: int, k: int|
        is_candidate(ids, keep, c) && !r.contains(c) && 0 <= k < r.len() implies key_ge(
        keys[#[trigger] r[k]],
        #[trigger] keys[c],
    ) by {
        assert(cand.contains(c));
        assert(s.contains(c));
        let w = choose|w: int| 0 <= w < s.len() && s[w] == c;
        if w < r.len() {
            assert(r[w] == c);
        }
        assert(r[k] == s[k]);
        assert(k < w);
    }
    assert forall|c: int| is_candidate(ids, keep, c) && !(#[trigger] r.contains(c)) implies r.len()
        == limit by {
        assert(cand.contains(c));
        assert(s.contains(c));
    }
}

// ---------------------------------------------------------------------------
// Record-specific scores
// ---------------------------------------------------------------------------

/// Whether two optional texts are equal (`Option<&str>` equality).
pub fn opt_text_eq(a: &Option<String>, b: &Option<String>) -> (r: bool)
    ensures
        r == (opt_view(*a) == opt_view(*b)),
{
    match (a, b) {
        (Some(x), Some(y)) => text_eq(x.as_str(), y.as_str()),
        (None, None) => true,
        _ => false,
    }
}

/// Whether an optional string equals an optional string slice.
pub fn opt_text_eq_str(a: &Option<String>, b: Option<&str>) -> (r: bool)
    ensures
        r == (opt_view(*a) == opt_str(b)),
{
    match (a, b) {
        (Some(x), Some(y)) => text_eq(x.as_str(), y),
        (None, None) => true,
        _ => false,
    }
}

pub open spec fn fact_key(f: FactView, resource_id: Option<Seq<char>>) -> RankKey {
    RankKey {
        scoped: f.resource_id == resource_id,
        unscoped: f.resource_id is None,
        weight: f.confidence.rank,
        time: f.updated_at.secs,
    }
}

pub open spec fn playbook_key(p: PlaybookView, error_family: Option<Seq<char>>) -> RankKey {
    RankKey {
        scoped: p.error_family == error_family,
        unscoped: p.error_family is None,
        weight: p.confidence.rank,
        time: p.updated_at.secs,
    }
}

pub open spec fn observation_key(o: ObservationView, resource_id: Option<Seq<char>>) -> RankKey {
    RankKey {
        scoped: o.resource_id == resource_id,
        unscoped: o.resource_id is None,
        weight: o.confidence.rank,
        time: o.updated_at.secs,
    }
}

pub open spec fn constraint_key(c: ConstraintView, resource_id: Option<Seq<char>>) -> RankKey {
    RankKey {
        scoped: c.resource_id == resource_id,
        unscoped: c.resource_id is None,
        weight: c.confidence.rank,
        time: c.updated_at.secs,
    }
}

pub open spec fn failure_pattern_key(
    p: FailurePatternView,
    resource_id: Option<Seq<char>>,
) -> RankKey {
    RankKey {
        scoped: p.resource_id == resource_id,
        unscoped: p.resource_id is None,
        weight: p.occurrence_count as u64,
        time: p.last_seen.secs,
    }
}

/// Facts ranked for a request.
pub open spec fn spec_rank_facts(
    records: Seq<FactView>,
    resource_id: Option<Seq<char>>,
    limit: nat,
) -> Seq<FactView> {
    ranked(
        records.map_values(|f: FactView| f.id),
        records.map_values(|f: FactView| true),
        records.map_values(|f: FactView| fact_key(f, resource_id)),
        limit,
    ).map_values(|i: int| records[i])
}

/// Playbooks ranked for an error family.
pub open spec fn spec_rank_playbooks(
    records: Seq<PlaybookView>,
    error_family: Option<Seq<char>>,
    limit: nat,
) -> Seq<PlaybookView> {
    ranked(
        records.map_values(|p: PlaybookView| p.id),
        records.map_values(|p: PlaybookView| true),
        records.map_values(|p: PlaybookView| playbook_key(p, error_family)),
        limit,
    ).map_values(|i: int| records[i])
}

/// Observations ranked for a request.
pub open spec fn spec_rank_observations(
    records: Seq<ObservationView>,
    resource_id: Option<Seq<char>>,
    limit: nat,
) -> Seq<ObservationView> {
    ranked(
        records.map_values(|o: ObservationView| o.id),
        records.map_values(|o: ObservationView| true),
        records.map_values(|o: ObservationView| observation_key(o, resource_id)),
        limit,
    ).map_values(|i: int| records[i])
}

/// Constraints ranked for a request.
pub open spec fn spec_rank_constraints(
    records: Seq<ConstraintView>,
    resource_id: Option<Seq<char>>,
    limit: nat,
) -> Seq<ConstraintView> {
    ranked(
        records.map_values(|c: ConstraintView| c.id),
        records.map_values(|c: ConstraintView| true),
        records.map_values(|c: ConstraintView| constraint_key(c, resource_id)),
        limit,
    ).map_values(|i: int| records[i])
}

/// Failure patterns ranked for a request: only those seen more than once.
pub open spec fn spec_rank_failure_patterns(
    records: Seq<FailurePatternView>,
    resource_id: Option<Seq<char>>,
    limit: nat,
) -> Seq<FailurePatternView> {
    ranked(
        records.map_values(|p: FailurePatternView| p.id),
        records.map_values(|p: FailurePatternView| p.occurrence_count > 1),
        records.map_values(|p: FailurePatternView| failure_pattern_key(p, resource_id)),
        limit,
    ).map_values(|i: int| records[i])
}

/// Copies of the records at the given positions, in that order.
fn pick<T: Duplicate>(records: &Vec<T>, order: &Vec<usize>) -> (out: Vec<T>)
    requires
        forall|q: int| 0 <= q < order@.len() ==> order@[q] < records@.len(),
    ensures
        views(out@) == as_ints(order@).map_values(|j: int| views(records@)[j]),
{
    let ghost rv = views(records@);
    let ghost pos = as_ints(order@);
    let mut out: Vec<T> = Vec::new();
    let mut k: usize = 0;
    while k < order.len()
        invariant
            rv == views(records@),
            pos == as_ints(order@),
            forall|q: int| 0 <= q < order@.len() ==> order@[q] < records@.len(),
            0 <= k <= order@.len(),
            views(out@) =~= pos.subrange(0, k as int).map_values(|j: int| rv[j]),
        decreases order.len() - k,
    {
        let rec = records[order[k]].duplicate();
        let ghost before = views(out@);
        out.push(rec);
        assert(views(out@) =~= before.push(rec@));
        assert(pos.subrange(0, k + 1).map_values(|j: int| rv[j]) =~= pos.subrange(
            0,
            k as int,
        ).map_values(|j: int| rv[j]).push(rv[order@[k as int] as int]));
        k = k + 1;
    }
    assert(pos.subrange(0, order@.len() as int) =~= pos);
    out
}

/// The facts most relevant to the request, at most `limit` of them.
pub fn rank_facts(records: Vec<FactRecord>, request: &ContextRetrieveRequest, limit: usize) -> (r: Vec<FactRecord>)
    ensures
        views(r@) == spec_rank_facts(views(records@), opt_view(request.resource_id), limit as nat),
{
    let ghost rv = views(records@);
    let ghost ctx = opt_view(request.resource_id);
    let mut ids: Vec<&str> = Vec::new();
    let mut keep: Vec<bool> = Vec::new();
    let mut keys: Vec<RankKey> = Vec::new();
    let mut i: usize = 0;
    while i < records.len()
        invariant
            rv == views(records@),
            ctx == opt_view(request.resource_id),
            0 <= i <= records@.len(),
            ids@.len() == i,
            keep@.len() == i,
            keys@.len() == i,
            forall|k: int| 0 <= k < i ==> #[trigger] ids@[k]@ == rv[k].id,
            forall|k: int| 0 <= k < i ==> #[trigger] keep@[k] == true,
            forall|k: int| 0 <= k < i ==> #[trigger] keys@[k] == fact_key(rv[k], ctx),
        decreases records.len() - i,
    {
        let r = &records[i];
        ids.push(r.id.as_str());
        keep.push(true);
        keys.push(RankKey {
                scoped: opt_text_eq(&r.resource_id, &request.resource_id),
                unscoped: r.resource_id.is_none(),
                weight: r.confidence.rank,
                time: r.updated_at.secs,
            });
        i = i + 1;
    }
    assert(ids@.map_values(|s: &str| s@) =~= rv.map_values(|x: FactView| x.id));
    assert(keep@ =~= rv.map_values(|x: FactView| true));
    assert(keys@ =~= rv.map_values(|x: FactView| fact_key(x, ctx)));
    let order = rank_order(&ids, &keep, &keys, limit);
    pick(&records, &order)
}

/// The playbooks most relevant to an error family, at most `limit` of them.
pub fn rank_playbooks(records: Vec<PlaybookRecord>, error_family: Option<&str>, limit: usize) -> (r: Vec<PlaybookRecord>)
    ensures
        views(r@) == spec_rank_playbooks(views(records@), opt_str(error_family), limit as nat),
{
    let ghost rv = views(records@);
    let ghost ctx = opt_str(error_family);
    let mut ids: Vec<&str> = Vec::new();
    let mut keep: Vec<bool> = Vec::new();
    let mut keys: Vec<RankKey> = Vec::new();
    let mut i: usize = 0;
    while i < records.len()
        invariant
            rv == views(records@),
            ctx == opt_str(error_family),
            0 <= i <= records@.len(),
            ids@.len() == i,
            keep@.len() == i,
            keys@.len() == i,
            forall|k: int| 0 <= k < i ==> #[trigger] ids@[k]@ == rv[k].id,
            forall|k: int| 0 <= k < i ==> #[trigger] keep@[k] == true,
            forall|k: int| 0 <= k < i ==> #[trigger] keys@[k] == playbook_key(rv[k], ctx),
        decreases records.len() - i,
    {
        let r = &records[i];
        ids.push(r.id.as_str());
        keep.push(true);
        keys.push(RankKey {
                scoped: opt_text_eq_str(&r.error_family, error_family),
                unscoped: r.error_family.is_none(),
                weight: r.confidence.rank,
                time: r.updated_at.secs,
            });
        i = i + 1;
    }
    assert(ids@.map_values(|s: &str| s@) =~= rv.map_values(|x: PlaybookView| x.id));
    assert(keep@ =~= rv.map_values(|x: PlaybookView| true));
    assert(keys@ =~= rv.map_values(|x: PlaybookView| playbook_key(x, ctx)));
    let order = rank_order(&ids, &keep, &keys, limit);
    pick(&records, &order)
}

/// The observations most relevant to the request, at most `limit` of them.
pub fn rank_observations(records: Vec<ObservationRecord>, request: &ContextRetrieveRequest, limit: usize) -> (r: Vec<ObservationRecord>)
    ensures
        views(r@) == spec_rank_observations(views(records@), opt_view(request.resource_id), limit as nat),
{
    let ghost rv = views(records@);
    let ghost ctx = opt_view(request.resource_id);
    let mut ids: Vec<&str> = Vec::new();
    let mut keep: Vec<bool> = Vec::new();
    let mut keys: Vec<RankKey> = Vec::new();
    let mut i: usize = 0;
    while i < records.len()
        invariant
            rv == views(records@),
            ctx == opt_view(request.resource_id),
            0 <= i <= records@.len(),
            ids@.len() == i,
            keep@.len() == i,
            keys@.len() == i,
            forall|k: int| 0 <= k < i ==> #[trigger] ids@[k]@ == rv[k].id,
            forall|k: int| 0 <= k < i ==> #[trigger] keep@[k] == true,
            forall|k: int| 0 <= k < i ==> #[trigger] keys@[k] == observation_key(rv[k], ctx),
        decreases records.len() - i,
    {
        let r = &records[i];
        ids.push(r.id.as_str());
        keep.push(true);
        keys.push(RankKey {
                scoped: opt_text_eq(&r.resource_id, &request.resource_id),
                unscoped: r.resource_id.is_none(),
                weight: r.confidence.rank,
                time: r.updated_at.secs,
            });
        i = i + 1;
    }
    assert(ids@.map_values(|s: &str| s@) =~= rv.map_values(|x: ObservationView| x.id));
    assert(keep@ =~= rv.map_values(|x: ObservationView| true));
    assert(keys@ =~= rv.map_values(|x: ObservationView| observation_key(x, ctx)));
    let order = rank_order(&ids, &keep, &keys, limit);
    pick(&records, &order)
}

/// The constraints most relevant to the request, at most `limit` of them.
pub fn rank_constraints(records: Vec<ConstraintRecord>, request: &ContextRetrieveRequest, limit: usize) -> (r: Vec<ConstraintRecord>)
    ensures
        views(r@) == spec_rank_constraints(views(records@), opt_view(request.resource_id), limit as nat),
{
    let ghost rv = views(records@);
    let ghost ctx = opt_view(request.resource_id);
    let mut ids: Vec<&str> = Vec::new();
    let mut keep: Vec<bool> = Vec::new();
    let mut keys: Vec<RankKey> = Vec::new();
    let mut i: usize = 0;
    while i < records.len()
        invariant
            rv == views(records@),
            ctx == opt_view(request.resource_id),
            0 <= i <= records@.len(),
            ids@.len() == i,
            keep@.len() == i,
            keys@.len() == i,
            forall|k: int| 0 <= k < i ==> #[trigger] ids@[k]@ == rv[k].id,
            forall|k: int| 0 <= k < i ==> #[trigger] keep@[k] == true,
            forall|k: int| 0 <= k < i ==> #[trigger] keys@[k] == constraint_key(rv[k], ctx),
        decreases records.len() - i,
    {
        let r = &records[i];
        ids.push(r.id.as_str());
        keep.push(true);
        keys.push(RankKey {
                scoped: opt_text_eq(&r.resource_id, &request.resource_id),
                unscoped: r.resource_id.is_none(),
                weight: r.confidence.rank,
                time: r.updated_at.secs,
            });
        i = i + 1;
    }
    assert(ids@.map_values(|s: &str| s@) =~= rv.map_values(|x: ConstraintView| x.id));
    assert(keep@ =~= rv.map_values(|x: ConstraintView| true));
    assert(keys@ =~= rv.map_values(|x: ConstraintView| constraint_key(x, ctx)));
    let order = rank_order(&ids, &keep, &keys, limit);
    pick(&records, &order)
}

/// The recurring failure patterns (seen more than once) most relevant to the request, at most `limit` of them.
pub fn rank_failure_patterns(records: Vec<FailurePatternRecord>, request: &ContextRetrieveRequest, limit: usize) -> (r: Vec<FailurePatternRecord>)
    ensures
        views(r@) == spec_rank_failure_patterns(views(records@), opt_view(request.resource_id), limit as nat),
{
    let ghost rv = views(records@);
    let ghost ctx = opt_view(request.resource_id);
    let mut ids: Vec<&str> = Vec::new();
    let mut keep: Vec<bool> = Vec::new();
    let mut keys: Vec<RankKey> = Vec::new();
    let mut i: usize = 0;
    while i < records.len()
        invariant
            rv == views(records@),
            ctx == opt_view(request.resource_id),
            0 <= i <= records@.len(),
            ids@.len() == i,
            keep@.len() == i,
            keys@.len() == i,
            forall|k: int| 0 <= k < i ==> #[trigger] ids@[k]@ == rv[k].id,
            forall|k: int| 0 <= k < i ==> #[trigger] keep@[k] == (rv[k].occurrence_count > 1),
            forall|k: int| 0 <= k < i ==> #[trigger] keys@[k] == failure_pattern_key(rv[k], ctx),
        decreases records.len() - i,
    {
        let r = &records[i];
        ids.push(r.id.as_str());
        keep.push(r.occurrence_count > 1);
        keys.push(RankKey {
                scoped: opt_text_eq(&r.resource_id, &request.resource_id),
                unscoped: r.resource_id.is_none(),
                weight: r.occurrence_count as u64,
                time: r.last_seen.secs,
            });
        i = i + 1;
    }
    assert(ids@.map_values(|s: &str| s@) =~= rv.map_values(|x: FailurePatternView| x.id));
    assert(keep@ =~= rv.map_values(|x: FailurePatternView| x.occurrence_count > 1));
    assert(keys@ =~= rv.map_values(|x: FailurePatternView| failure_pattern_key(x, ctx)));
    let order = rank_order(&ids, &keep, &keys, limit);
    pick(&records, &order)
}

// ---------------------------------------------------------------------------
// What a ranking gives back
// ---------------------------------------------------------------------------

/// Record `a` may stand before record `b` in a ranking for the scope
/// `wanted`: a record of the wanted scope before every other; among records
/// equally matching it, an unscoped one before a scoped one; among records
/// alike in both, the higher weight first; and at equal weight the later time.
pub open spec fn may_precede(
    a_scope: Option<Seq<char>>,
    b_scope: Option<Seq<char>>,
    wanted: Option<Seq<char>>,
    a_weight: int,
    b_weight: int,
    a_time: int,
    b_time: int,
) -> bool {
    &&& (b_scope == wanted ==> a_scope == wanted)
    &&& (((a_scope == wanted) == (b_scope == wanted) && b_scope is None) ==> a_scope is None)
    &&& (((a_scope == wanted) == (b_scope == wanted) && (a_scope is None) == (b_scope is None))
        ==> a_weight >= b_weight)
    &&& (((a_scope == wanted) == (b_scope == wanted) && (a_scope is None) == (b_scope is None)
        && a_weight == b_weight) ==> a_time >= b_time)
}

proof fn lemma_key_ge_precede(a: RankKey, b: RankKey, a_scope: Option<Seq<char>>, b_scope: Option<
    Seq<char>,
>, wanted: Option<Seq<char>>)
    requires
        key_ge(a, b),
        a.scoped == (a_scope == wanted),
        b.scoped == (b_scope == wanted),
        a.unscoped == (a_scope is None),
        b.unscoped == (b_scope is None),
    ensures
        may_precede(a_scope, b_scope, wanted, a.weight as int, b.weight as int, a.time as int, b.time as int),
{
}

/// Ranked constraints: at most `limit` of them, each one of the records
/// given, no id twice, and in order: those of the requested resource first,
/// then unscoped ones, then the rest; within each, by confidence rank, then
/// by the whole seconds of `updated_at`, highest first.
pub proof fn law_constraints_ranked(
    records: Seq<ConstraintView>,
    resource_id: Option<Seq<char>>,
    limit: nat,
)
    ensures
        ({
            let r = spec_rank_constraints(records, resource_id, limit);
            &&& r.len() <= limit
            &&& forall|k: int| 0 <= k < r.len() ==> records.contains(#[trigger] r[k])
            &&& forall|i: int, j: int| 0 <= i < j < r.len() ==> (#[trigger] r[i]).id != (#[trigger] r[j]).id
            &&& forall|i: int, j: int|
                0 <= i < j < r.len() ==> may_precede(
                    (#[trigger] r[i]).resource_id,
                    (#[trigger] r[j]).resource_id,
                    resource_id,
                    r[i].confidence.rank as int,
                    r[j].confidence.rank as int,
                    r[i].updated_at.secs as int,
                    r[j].updated_at.secs as int,
                )
        }),
{
    let ids = records.map_values(|c: ConstraintView| c.id);
    let keep = records.map_values(|c: ConstraintView| true);
    let keys = records.map_values(|c: ConstraintView| constraint_key(c, resource_id));
    law_ranked(ids, keep, keys, limit);
    let idx = ranked(ids, keep, keys, limit);
    let r = spec_rank_constraints(records, resource_id, limit);
    assert(r == idx.map_values(|i: int| records[i]));
    assert forall|k: int| 0 <= k < r.len() implies records.contains(#[trigger] r[k]) by {
        assert(is_candidate(ids, keep, idx[k]));
        assert(r[k] == records[idx[k]]);
    }
    assert forall|i: int, j: int| 0 <= i < j < r.len() implies (#[trigger] r[i]).id != (
    #[trigger] r[j]).id by {
        assert(is_candidate(ids, keep, idx[i]) && is_candidate(ids, keep, idx[j]));
        assert(ids[idx[i]] != ids[idx[j]]);
    }
    assert forall|i: int, j: int| 0 <= i < j < r.len() implies may_precede(
        (#[trigger] r[i]).resource_id,
        (#[trigger] r[j]).resource_id,
        resource_id,
        r[i].confidence.rank as int,
        r[j].confidence.rank as int,
        r[i].updated_at.secs as int,
        r[j].updated_at.secs as int,
    ) by {
        assert(is_candidate(ids, keep, idx[i]) && is_candidate(ids, keep, idx[j]));
        assert(key_ge(keys[idx[i]], keys[idx[j]]));
        lemma_key_ge_precede(keys[idx[i]], keys[idx[j]], r[i].resource_id, r[j].resource_id, resource_id);
    }
}

/// Ranked facts: at most `limit` of them, each one of the records
/// given, no id twice, and in order: those of the requested resource first,
/// then unscoped ones, then the rest; within each, by confidence rank, then
/// by the whole seconds of `updated_at`, highest first.
pub proof fn law_facts_ranked(
    records: Seq<FactView>,
    resource_id: Option<Seq<char>>,
    limit: nat,
)
    ensures
        ({
            let r = spec_rank_facts(records, resource_id, limit);
            &&& r.len() <= limit
            &&& forall|k: int| 0 <= k < r.len() ==> records.contains(#[trigger] r[k])
            &&& forall|i: int, j: int| 0 <= i < j < r.len() ==> (#[trigger] r[i]).id != (#[trigger] r[j]).id
            &&& forall|i: int, j: int|
                0 <= i < j < r.len() ==> may_precede(
                    (#[trigger] r[i]).resource_id,
                    (#[trigger] r[j]).resource_id,
                    resource_id,
                    r[i].confidence.rank as int,
                    r[j].confidence.rank as int,
                    r[i].updated_at.secs as int,
                    r[j].updated_at.secs as int,
                )
        }),
{
    let ids = records.map_values(|c: FactView| c.id);
    let keep = records.map_values(|c: FactView| true);
    let keys = records.map_values(|c: FactView| fact_key(c, resource_id));
    law_ranked(ids, keep, keys, limit);
    let idx = ranked(ids, keep, keys, limit);
    let r = spec_rank_facts(records, resource_id, limit);
    assert(r == idx.map_values(|i: int| records[i]));
    assert forall|k: int| 0 <= k < r.len() implies records.contains(#[trigger] r[k]) by {
        assert(is_candidate(ids, keep, idx[k]));
        assert(r[k] == records[idx[k]]);
    }
    assert forall|i: int, j: int| 0 <= i < j < r.len() implies (#[trigger] r[i]).id != (
    #[trigger] r[j]).id by {
        assert(is_candidate(ids, keep, idx[i]) && is_candidate(ids, keep, idx[j]));
        assert(ids[idx[i]] != ids[idx[j]]);
    }
    assert forall|i: int, j: int| 0 <= i < j < r.len() implies may_precede(
        (#[trigger] r[i]).resource_id,
        (#[trigger] r[j]).resource_id,
        resource_id,
        r[i].confidence.rank as int,
        r[j].confidence.rank as int,
        r[i].updated_at.secs as int,
        r[j].updated_at.secs as int,
    ) by {
        assert(is_candidate(ids, keep, idx[i]) && is_candidate(ids, keep, idx[j]));
        assert(key_ge(keys[idx[i]], keys[idx[j]]));
        lemma_key_ge_precede(keys[idx[i]], keys[idx[j]], r[i].resource_id, r[j].resource_id, resource_id);
    }
}

/// Ranked observations: at most `limit` of them, each one of the records
/// given, no id twice, and in order: those of the requested resource first,
/// then unscoped ones, then the rest; within each, by confidence rank, then
/// by the whole seconds of `updated_at`, highest first.
pub proof fn law_observations_ranked(
    records: Seq<ObservationView>,
    resource_id: Option<Seq<char>>,
    limit: nat,
)
    ensures
        ({
            let r = spec_rank_observations(records, resource_id, limit);
            &&& r.len() <= limit
            &&& forall|k: int| 0 <= k < r.len() ==> records.contains(#[trigger] r[k])
            &&& forall|i: int, j: int| 0 <= i < j < r.len() ==> (#[trigger] r[i]).id != (#[trigger] r[j]).id
            &&& forall|i: int, j: int|
                0 <= i < j < r.len() ==> may_precede(
                    (#[trigger] r[i]).resource_id,
                    (#[trigger] r[j]).resource_id,
                    resource_id,
                    r[i].confidence.rank as int,
                    r[j].confidence.rank as int,
                    r[i].updated_at.secs as int,
                    r[j].updated_at.secs as int,
                )
        }),
{
    let ids = records.map_values(|c: ObservationView| c.id);
    let keep = records.map_values(|c: ObservationView| true);
    let keys = records.map_values(|c: ObservationView| observation_key(c, resource_id));
    law_ranked(ids, keep, keys, limit);
    let idx = ranked(ids, keep, keys, limit);
    let r = spec_rank_observations(records, resource_id, limit);
    assert(r == idx.map_values(|i: int| records[i]));
    assert forall|k: int| 0 <= k < r.len() implies records.contains(#[trigger] r[k]) by {
        assert(is_candidate(ids, keep, idx[k]));
        assert(r[k] == records[idx[k]]);
    }
    assert forall|i: int, j: int| 0 <= i < j < r.len() implies (#[trigger] r[i]).id != (
    #[trigger] r[j]).id by {
        assert(is_candidate(ids, keep, idx[i]) && is_candidate(ids, keep, idx[j]));
        assert(ids[idx[i]] != ids[idx[j]]);
    }
    assert forall|i: int, j: int| 0 <= i < j < r.len() implies may_precede(
        (#[trigger] r[i]).resource_id,
        (#[trigger] r[j]).resource_id,
        resource_id,
        r[i].confidence.rank as int,
        r[j].confidence.rank as int,
        r[i].updated_at.secs as int,
        r[j].updated_at.secs as int,
    ) by {
        assert(is_candidate(ids, keep, idx[i]) && is_candidate(ids, keep, idx[j]));
        assert(key_ge(keys[idx[i]], keys[idx[j]]));
        lemma_key_ge_precede(keys[idx[i]], keys[idx[j]], r[i].resource_id, r[j].resource_id, resource_id);
    }
}

/// Ranked playbooks: at most `limit` of them, each one of the records given,
/// no id twice, and in order: those of the requested error family first, then
/// those of no family, then the rest; within each, by confidence rank, then by
/// the whole seconds of `updated_at`, highest first.
pub proof fn law_playbooks_ranked(
    records: Seq<PlaybookView>,
    error_family: Option<Seq<char>>,
    limit: nat,
)
    ensures
        ({
            let r = spec_rank_playbooks(records, error_family, limit);
            &&& r.len() <= limit
            &&& forall|k: int| 0 <= k < r.len() ==> records.contains(#[trigger] r[k])
            &&& forall|i: int, j: int| 0 <= i < j < r.len() ==> (#[trigger] r[i]).id != (#[trigger] r[j]).id
            &&& forall|i: int, j: int|
                0 <= i < j < r.len() ==> may_precede(
                    (#[trigger] r[i]).error_family,
                    (#[trigger] r[j]).error_family,
                    error_family,
                    r[i].confidence.rank as int,
                    r[j].confidence.rank as int,
                    r[i].updated_at.secs as int,
                    r[j].updated_at.secs as int,
                )
        }),
{
    let ids = records.map_values(|c: PlaybookView| c.id);
    let keep = records.map_values(|c: PlaybookView| true);
    let keys = records.map_values(|c: PlaybookView| playbook_key(c, error_family));
    law_ranked(ids, keep, keys, limit);
    let idx = ranked(ids, keep, keys, limit);
    let r = spec_rank_playbooks(records, error_family, limit);
    assert(r == idx.map_values(|i: int| records[i]));
    assert forall|k: int| 0 <= k < r.len() implies records.contains(#[trigger] r[k]) by {
        assert(is_candidate(ids, keep, idx[k]));
        assert(r[k] == records[idx[k]]);
    }
    assert forall|i: int, j: int| 0 <= i < j < r.len() implies (#[trigger] r[i]).id != (
    #[trigger] r[j]).id by {
        assert(is_candidate(ids, keep, idx[i]) && is_candidate(ids, keep, idx[j]));
        assert(ids[idx[i]] != ids[idx[j]]);
    }
    assert forall|i: int, j: int| 0 <= i < j < r.len() implies may_precede(
        (#[trigger] r[i]).error_family,
        (#[trigger] r[j]).error_family,
        error_family,
        r[i].confidence.rank as int,
        r[j].confidence.rank as int,
        r[i].updated_at.secs as int,
        r[j].updated_at.secs as int,
    ) by {
        assert(is_candidate(ids, keep, idx[i]) && is_candidate(ids, keep, idx[j]));
        assert(key_ge(keys[idx[i]], keys[idx[j]]));
        lemma_key_ge_precede(keys[idx[i]], keys[idx[j]], r[i].error_family, r[j].error_family, error_family);
    }
}

/// Ranked failure patterns: at most `limit` of them, only recurring ones (seen
/// more than once), each one of the records given, no id twice, and in order:
/// those of the requested resource first, then unscoped ones, then the rest;
/// within each, by occurrence count, then by the whole seconds of `last_seen`,
/// highest first.
pub proof fn law_failure_patterns_ranked(
    records: Seq<FailurePatternView>,
    resource_id: Option<Seq<char>>,
    limit: nat,
)
    ensures
        ({
            let r = spec_rank_failure_patterns(records, resource_id, limit);
            &&& r.len() <= limit
            &&& forall|k: int| 0 <= k < r.len() ==> (#[trigger] r[k]).occurrence_count > 1
            &&& forall|k: int| 0 <= k < r.len() ==> records.contains(#[trigger] r[k])
            &&& forall|i: int, j: int| 0 <= i < j < r.len() ==> (#[trigger] r[i]).id != (#[trigger] r[j]).id
            &&& forall|i: int, j: int|
                0 <= i < j < r.len() ==> may_precede(
                    (#[trigger] r[i]).resource_id,
                    (#[trigger] r[j]).resource_id,
                    resource_id,
                    r[i].occurrence_count as int,
                    r[j].occurrence_count as int,
                    r[i].last_seen.secs as int,
                    r[j].last_seen.secs as int,
                )
        }),
{
    let ids = records.map_values(|c: FailurePatternView| c.id);
    let keep = records.map_values(|c: FailurePatternView| c.occurrence_count > 1);
    let keys = records.map_values(|c: FailurePatternView| failure_pattern_key(c, resource_id));
    law_ranked(ids, keep, keys, limit);
    let idx = ranked(ids, keep, keys, limit);
    let r = spec_rank_failure_patterns(records, resource_id, limit);
    assert(r == idx.map_values(|i: int| records[i]));
    assert forall|k: int| 0 <= k < r.len() implies (#[trigger] r[k]).occurrence_count > 1 by {
        assert(is_candidate(ids, keep, idx[k]));
        assert(r[k] == records[idx[k]]);
    }
    assert forall|k: int| 0 <= k < r.len() implies records.contains(#[trigger] r[k]) by {
        assert(is_candidate(ids, keep, idx[k]));
        assert(r[k] == records[idx[k]]);
    }
    assert forall|i: int, j: int| 0 <= i < j < r.len() implies (#[trigger] r[i]).id != (
    #[trigger] r[j]).id by {
        assert(is_candidate(ids, keep, idx[i]) && is_candidate(ids, keep, idx[j]));
        assert(ids[idx[i]] != ids[idx[j]]);
    }
    assert forall|i: int, j: int| 0 <= i < j < r.len() implies may_precede(
        (#[trigger] r[i]).resource_id,
        (#[trigger] r[j]).resource_id,
        resource_id,
        r[i].occurrence_count as int,
        r[j].occurrence_count as int,
        r[i].last_seen.secs as int,
        r[j].last_seen.secs as int,
    ) by {
        assert(is_candidate(ids, keep, idx[i]) && is_candidate(ids, keep, idx[j]));
        assert(key_ge(keys[idx[i]], keys[idx[j]]));
        lemma_key_ge_precede(keys[idx[i]], keys[idx[j]], r[i].resource_id, r[j].resource_id, resource_id);
    }
}

} // verus!
