//! Storing what was extracted from a tool-result event.
use vstd::prelude::*;

use crate::extractors::{Extracted, ExtractedView};
use crate::models::{
    ConstraintRecord, ConstraintView, FactRecord, FactView, FailurePatternRecord,
    FailurePatternView, ObservationRecord, ObservationView, StoredItem, ToolResultResponse,
    Stamp, epoch, utc_now, views,
};
use crate::store::memory::{
    InMemoryStore, StoreView, StoredRecord, failures_fit, lemma_fit_at_any_time, lemma_fit_prefix,
    lemma_recorded_failure_id, record_all, upserted,
};
use crate::text::owned;

verus! {

/// A table after storing each record in turn.
pub open spec fn upsert_all<T: StoredRecord>(s: Seq<T::V>, rs: Seq<T::V>) -> Seq<T::V>
    decreases rs.len(),
{
    if rs.len() == 0 {
        s
    } else {
        upserted::<T>(upsert_all::<T>(s, rs.drop_last()), rs.last())
    }
}

/// The store after storing an extraction at `now`: facts, constraints,
/// failure patterns, then observations.
pub open spec fn store_after(s: StoreView, x: ExtractedView, now: Stamp) -> StoreView {
    StoreView {
        facts: upsert_all::<FactRecord>(s.facts, x.facts),
        constraints: upsert_all::<ConstraintRecord>(s.constraints, x.constraints),
        failure_patterns: record_all(s.failure_patterns, x.failure_patterns, now),
        observations: upsert_all::<ObservationRecord>(s.observations, x.observations),
        ..s
    }
}

/// The (record type, id) of every stored item, in storing order.
pub open spec fn stored_items(x: ExtractedView) -> Seq<(Seq<char>, Seq<char>)> {
    x.facts.map_values(|f: FactView| ("fact"@, f.id)) + x.constraints.map_values(
        |c: ConstraintView| ("constraint"@, c.id),
    ) + x.failure_patterns.map_values(|p: FailurePatternView| ("failure_pattern"@, p.id))
        + x.observations.map_values(|o: ObservationView| ("observation"@, o.id))
}

/// The plain form of a response's items.
pub open spec fn item_views(items: Seq<StoredItem>) -> Seq<(Seq<char>, Seq<char>)> {
    items.map_values(|i: StoredItem| (i.record_type@, i.id@))
}

/// Recording the failure patterns of an extraction one after another (a
/// pattern repeated in the extraction is counted again each time) never
/// counts a pattern whose count is already `u32::MAX`. The time of recording
/// plays no part (`lemma_fit_at_any_time`), so it is taken as the epoch.
pub open spec fn extraction_fits(s: StoreView, x: ExtractedView) -> bool {
    failures_fit(s.failure_patterns, x.failure_patterns, epoch())
}

/// Whether an extraction can be stored without overflowing a count.
pub fn can_store_extracted(store: &InMemoryStore, extracted: &Extracted) -> (b: bool)
    ensures
        b == extraction_fits(store@, extracted@),
{
    store.can_record_failure_patterns(&extracted.failure_patterns)
}

fn push_item(items: &mut Vec<StoredItem>, record_type: &str, id: &str)
    ensures
        item_views(final(items)@) == item_views(old(items)@).push((record_type@, id@)),
{
    items.push(StoredItem { record_type: owned(record_type), id: owned(id) });
    assert(item_views(items@) =~= item_views(old(items)@).push((record_type@, id@)));
}

/// Stores every extracted record at `now` (facts, constraints, failure
/// patterns, observations) and lists what was stored.
pub fn store_extracted_at(store: &mut InMemoryStore, extracted: Extracted, now: Stamp) -> (r:
    ToolResultResponse)
    requires
        extraction_fits(old(store)@, extracted@),
    ensures
        final(store)@ == store_after(old(store)@, extracted@, now),
        item_views(r.stored@) == stored_items(extracted@),
{
    let ghost x = extracted@;
    let ghost s0 = store@;
    let mut items: Vec<StoredItem> = Vec::new();
    let Extracted { facts, constraints, failure_patterns, observations } = extracted;
    let ghost fs = views(facts@);
    let mut i: usize = 0;
    while i < facts.len()
        invariant
            fs == views(facts@),
            fs == x.facts,
            0 <= i <= facts@.len(),
            store@ == (StoreView {
                facts: upsert_all::<FactRecord>(s0.facts, fs.subrange(0, i as int)),
                ..s0
            }),
            item_views(items@) =~= fs.subrange(0, i as int).map_values(|f: FactView| ("fact"@, f.id)),
        decreases facts.len() - i,
    {
        let rec = facts[i].clone();
        let stored = store.put_fact(rec);
        push_item(&mut items, "fact", stored.id.as_str());
        assert(fs.subrange(0, i + 1).drop_last() =~= fs.subrange(0, i as int));
        assert(fs.subrange(0, i + 1) =~= fs.subrange(0, i as int).push(fs[i as int]));
        i = i + 1;
    }
    assert(fs.subrange(0, facts@.len() as int) =~= fs);
    let ghost s1 = store@;
    let ghost items1 = item_views(items@);
    let ghost cs = views(constraints@);
    i = 0;
    while i < constraints.len()
        invariant
            cs == views(constraints@),
            cs == x.constraints,
            0 <= i <= constraints@.len(),
            store@ == (StoreView {
                constraints: upsert_all::<ConstraintRecord>(s1.constraints, cs.subrange(0, i as int)),
                ..s1
            }),
            item_views(items@) =~= items1 + cs.subrange(0, i as int).map_values(
                |c: ConstraintView| ("constraint"@, c.id),
            ),
        decreases constraints.len() - i,
    {
        let rec = constraints[i].clone();
        let stored = store.put_constraint(rec);
        push_item(&mut items, "constraint", stored.id.as_str());
        assert(cs.subrange(0, i + 1).drop_last() =~= cs.subrange(0, i as int));
        assert(cs.subrange(0, i + 1) =~= cs.subrange(0, i as int).push(cs[i as int]));
        i = i + 1;
    }
    assert(cs.subrange(0, constraints@.len() as int) =~= cs);
    let ghost s2 = store@;
    let ghost items2 = item_views(items@);
    let ghost ps = views(failure_patterns@);
    assert(ps.subrange(0, 0) =~= Seq::<FailurePatternView>::empty());
    assert(record_all(s2.failure_patterns, ps.subrange(0, 0), now) == s2.failure_patterns);
    proof {
        assert(s2.failure_patterns == s0.failure_patterns);
        lemma_fit_at_any_time(s2.failure_patterns, ps, epoch(), now);
    }
    i = 0;
    while i < failure_patterns.len()
        invariant
            ps == views(failure_patterns@),
            ps == x.failure_patterns,
            failures_fit(s2.failure_patterns, ps, now),
            0 <= i <= failure_patterns@.len(),
            store@ == (StoreView {
                failure_patterns: record_all(s2.failure_patterns, ps.subrange(0, i as int), now),
                ..s2
            }),
            item_views(items@) =~= items2 + ps.subrange(0, i as int).map_values(
                |p: FailurePatternView| ("failure_pattern"@, p.id),
            ),
        decreases failure_patterns.len() - i,
    {
        let rec = failure_patterns[i].clone();
        let ghost before = store@.failure_patterns;
        proof {
            lemma_fit_prefix(s2.failure_patterns, ps, i + 1, now);
            assert(ps.subrange(0, i + 1).drop_last() =~= ps.subrange(0, i as int));
            assert(ps.subrange(0, i + 1).last() == ps[i as int]);
        }
        let stored = store.put_failure_pattern_at(rec, now);
        proof {
            lemma_recorded_failure_id(before, ps[i as int], now);
        }
        push_item(&mut items, "failure_pattern", stored.id.as_str());
        assert(ps.subrange(0, i + 1) =~= ps.subrange(0, i as int).push(ps[i as int]));
        i = i + 1;
    }
    assert(ps.subrange(0, failure_patterns@.len() as int) =~= ps);
    let ghost s3 = store@;
    let ghost items3 = item_views(items@);
    let ghost os = views(observations@);
    i = 0;
    while i < observations.len()
        invariant
            os == views(observations@),
            os == x.observations,
            0 <= i <= observations@.len(),
            store@ == (StoreView {
                observations: upsert_all::<ObservationRecord>(
                    s3.observations,
                    os.subrange(0, i as int),
                ),
                ..s3
            }),
            item_views(items@) =~= items3 + os.subrange(0, i as int).map_values(
                |o: ObservationView| ("observation"@, o.id),
            ),
        decreases observations.len() - i,
    {
        let rec = observations[i].clone();
        let stored = store.put_observation(rec);
        push_item(&mut items, "observation", stored.id.as_str());
        assert(os.subrange(0, i + 1).drop_last() =~= os.subrange(0, i as int));
        assert(os.subrange(0, i + 1) =~= os.subrange(0, i as int).push(os[i as int]));
        i = i + 1;
    }
    assert(os.subrange(0, observations@.len() as int) =~= os);
    assert(item_views(items@) =~= stored_items(x));
    ToolResultResponse { stored: items }
}

/// Stores every extracted record, now (see `store_extracted_at`).
pub fn store_extracted(store: &mut InMemoryStore, extracted: Extracted) -> (r: ToolResultResponse)
    requires
        extraction_fits(old(store)@, extracted@),
    ensures
        exists|now: Stamp| final(store)@ == store_after(old(store)@, extracted@, now),
        item_views(r.stored@) == stored_items(extracted@),
{
    let now = utc_now();
    store_extracted_at(store, extracted, now)
}

} // verus!
