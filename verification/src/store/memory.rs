//! The in-memory store: one table per record type, keyed by
//! (namespace, tool name, id), with expiry of observations, constraints and
//! failure patterns and a per-resource cap on failure patterns.
use vstd::prelude::*;

use crate::models::{
    ConstraintRecord, ConstraintView, Duplicate, FactRecord, FactView, FailurePatternRecord,
    FailurePatternView, ObservationRecord, ObservationView, PlaybookRecord, PlaybookView,
    Stamp, epoch, opt_str, opt_view, stamp_before, stamp_before_exec, utc_now, views,
};
use crate::text::text_eq;

verus! {

/// The most failure patterns kept for one (namespace, tool, resource).
pub const MAX_FAILURE_PATTERNS_PER_RESOURCE: usize = 20;

// ---------------------------------------------------------------------------
// Keys and tables
// ---------------------------------------------------------------------------

/// A record stored under a (namespace, tool name, id) key.
pub trait StoredRecord: Duplicate {
    /// The key of a record view.
    spec fn record_key(v: Self::V) -> (Seq<char>, Seq<char>, Seq<char>);

    /// Whether two records have the same key.
    fn same_key(&self, other: &Self) -> (b: bool)
        ensures
            b == (Self::record_key(self@) == Self::record_key(other@)),
    ;
}

fn key_eq(a: (&str, &str, &str), b: (&str, &str, &str)) -> (r: bool)
    ensures
        r == (a.0@ == b.0@ && a.1@ == b.1@ && a.2@ == b.2@),
{
    text_eq(a.0, b.0) && text_eq(a.1, b.1) && text_eq(a.2, b.2)
}

impl StoredRecord for FactRecord {
    open spec fn record_key(v: FactView) -> (Seq<char>, Seq<char>, Seq<char>) {
        (v.namespace, v.tool_name, v.id)
    }

    fn same_key(&self, other: &Self) -> (b: bool) {
        key_eq(
            (self.namespace.as_str(), self.tool_name.as_str(), self.id.as_str()),
            (other.namespace.as_str(), other.tool_name.as_str(), other.id.as_str()),
        )
    }
}

impl StoredRecord for PlaybookRecord {
    open spec fn record_key(v: PlaybookView) -> (Seq<char>, Seq<char>, Seq<char>) {
        (v.namespace, v.tool_name, v.id)
    }

    fn same_key(&self, other: &Self) -> (b: bool) {
        key_eq(
            (self.namespace.as_str(), self.tool_name.as_str(), self.id.as_str()),
            (other.namespace.as_str(), other.tool_name.as_str(), other.id.as_str()),
        )
    }
}

impl StoredRecord for ObservationRecord {
    open spec fn record_key(v: ObservationView) -> (Seq<char>, Seq<char>, Seq<char>) {
        (v.namespace, v.tool_name, v.id)
    }

    fn same_key(&self, other: &Self) -> (b: bool) {
        key_eq(
            (self.namespace.as_str(), self.tool_name.as_str(), self.id.as_str()),
            (other.namespace.as_str(), other.tool_name.as_str(), other.id.as_str()),
        )
    }
}

impl StoredRecord for ConstraintRecord {
    open spec fn record_key(v: ConstraintView) -> (Seq<char>, Seq<char>, Seq<char>) {
        (v.namespace, v.tool_name, v.id)
    }

    fn same_key(&self, other: &Self) -> (b: bool) {
        key_eq(
            (self.namespace.as_str(), self.tool_name.as_str(), self.id.as_str()),
            (other.namespace.as_str(), other.tool_name.as_str(), other.id.as_str()),
        )
    }
}

impl StoredRecord for FailurePatternRecord {
    open spec fn record_key(v: FailurePatternView) -> (Seq<char>, Seq<char>, Seq<char>) {
        (v.namespace, v.tool_name, v.id)
    }

    fn same_key(&self, other: &Self) -> (b: bool) {
        key_eq(
            (self.namespace.as_str(), self.tool_name.as_str(), self.id.as_str()),
            (other.namespace.as_str(), other.tool_name.as_str(), other.id.as_str()),
        )
    }
}

/// No two records of a table share a key.
pub open spec fn unique_keys<T: StoredRecord>(s: Seq<T::V>) -> bool {
    forall|i: int, j: int|
        0 <= i < j < s.len() ==> T::record_key(#[trigger] s[i]) != T::record_key(#[trigger] s[j])
}

/// The position of the record with key `k`, or -1.
pub open spec fn key_index<T: StoredRecord>(
    s: Seq<T::V>,
    k: (Seq<char>, Seq<char>, Seq<char>),
) -> int
    decreases s.len(),
{
    if s.len() == 0 {
        -1
    } else if T::record_key(s.last()) == k {
        s.len() - 1
    } else {
        key_index::<T>(s.drop_last(), k)
    }
}

/// The table after storing `r`: it replaces the record with its key, or is
/// added at the end.
pub open spec fn upserted<T: StoredRecord>(s: Seq<T::V>, r: T::V) -> Seq<T::V> {
    let i = key_index::<T>(s, T::record_key(r));
    if i >= 0 {
        s.update(i, r)
    } else {
        s.push(r)
    }
}

proof fn lemma_key_index<T: StoredRecord>(s: Seq<T::V>, k: (Seq<char>, Seq<char>, Seq<char>))
    ensures
        -1 <= key_index::<T>(s, k) < s.len(),
        key_index::<T>(s, k) >= 0 ==> T::record_key(s[key_index::<T>(s, k)]) == k,
        key_index::<T>(s, k) == -1 ==> forall|j: int|
            0 <= j < s.len() ==> T::record_key(#[trigger] s[j]) != k,
    decreases s.len(),
{
    if s.len() > 0 {
        lemma_key_index::<T>(s.drop_last(), k);
        if T::record_key(s.last()) != k {
            let d = s.drop_last();
            assert forall|j: int| 0 <= j < s.len() && key_index::<T>(s, k) == -1 implies T::record_key(
                #[trigger] s[j],
            ) != k by {
                if j < d.len() {
                    assert(s[j] == d[j]);
                }
            }
        }
    }
}

proof fn lemma_upserted<T: StoredRecord>(s: Seq<T::V>, r: T::V)
    requires
        unique_keys::<T>(s),
    ensures
        unique_keys::<T>(upserted::<T>(s, r)),
        upserted::<T>(s, r).contains(r),
        forall|j: int|
            0 <= j < s.len() && T::record_key(#[trigger] s[j]) != T::record_key(r)
                ==> upserted::<T>(s, r).contains(s[j]),
        forall|v: T::V| #[trigger]
            upserted::<T>(s, r).contains(v) ==> v == r || (s.contains(v) && T::record_key(v)
                != T::record_key(r)),
{
    let k = T::record_key(r);
    lemma_key_index::<T>(s, k);
    let i = key_index::<T>(s, k);
    let u = upserted::<T>(s, r);
    if i >= 0 {
        assert(u[i] == r);
        assert forall|j: int| 0 <= j < s.len() && T::record_key(#[trigger] s[j]) != k implies u.contains(
            s[j],
        ) by {
            assert(u[j] == s[j]);
        }
        assert forall|v: T::V| #[trigger] u.contains(v) implies v == r || (s.contains(v)
            && T::record_key(v) != k) by {
            let w = choose|w: int| 0 <= w < u.len() && u[w] == v;
            if w != i {
                assert(s[w] == v);
                assert(T::record_key(s[w]) != T::record_key(s[i]));
            }
        }
    } else {
        assert(u[s.len() as int] == r);
        assert forall|j: int| 0 <= j < s.len() && T::record_key(#[trigger] s[j]) != k implies u.contains(
            s[j],
        ) by {
            assert(u[j] == s[j]);
        }
        assert forall|v: T::V| #[trigger] u.contains(v) implies v == r || (s.contains(v)
            && T::record_key(v) != k) by {
            let w = choose|w: int| 0 <= w < u.len() && u[w] == v;
            if w < s.len() {
                assert(s[w] == v);
            }
        }
    }
}

proof fn lemma_unique_update<T: StoredRecord>(s: Seq<T::V>, i: int, v: T::V)
    requires
        unique_keys::<T>(s),
        0 <= i < s.len(),
        T::record_key(v) == T::record_key(s[i]),
    ensures
        unique_keys::<T>(s.update(i, v)),
{
    let u = s.update(i, v);
    assert forall|a: int, b: int| 0 <= a < b < u.len() implies T::record_key(#[trigger] u[a])
        != T::record_key(#[trigger] u[b]) by {
        assert(T::record_key(u[a]) == T::record_key(s[a]));
        assert(T::record_key(u[b]) == T::record_key(s[b]));
    }
}

proof fn lemma_unique_remove<T: StoredRecord>(s: Seq<T::V>, i: int)
    requires
        unique_keys::<T>(s),
        0 <= i < s.len(),
    ensures
        unique_keys::<T>(s.remove(i)),
        forall|j: int| 0 <= j < s.remove(i).len() ==> s.contains(#[trigger] s.remove(i)[j]),
{
    let u = s.remove(i);
    assert forall|a: int, b: int| 0 <= a < b < u.len() implies T::record_key(#[trigger] u[a])
        != T::record_key(#[trigger] u[b]) by {
        let a2 = if a < i { a } else { a + 1 };
        let b2 = if b < i { b } else { b + 1 };
        assert(u[a] == s[a2] && u[b] == s[b2]);
    }
    assert forall|j: int| 0 <= j < u.len() implies s.contains(#[trigger] u[j]) by {
        let j2 = if j < i { j } else { j + 1 };
        assert(u[j] == s[j2]);
    }
}

proof fn lemma_unique_push<T: StoredRecord>(s: Seq<T::V>, v: T::V)
    requires
        unique_keys::<T>(s),
        forall|j: int| 0 <= j < s.len() ==> T::record_key(#[trigger] s[j]) != T::record_key(v),
    ensures
        unique_keys::<T>(s.push(v)),
{
    let u = s.push(v);
    assert forall|a: int, b: int| 0 <= a < b < u.len() implies T::record_key(#[trigger] u[a])
        != T::record_key(#[trigger] u[b]) by {
        if b == s.len() {
            assert(u[a] == s[a]);
        } else {
            assert(u[a] == s[a] && u[b] == s[b]);
        }
    }
}

/// Stores a record in a table, replacing the one with the same key.
fn upsert<T: StoredRecord>(table: &mut Vec<T>, rec: T)
    requires
        unique_keys::<T>(views(old(table)@)),
    ensures
        views(final(table)@) == upserted::<T>(views(old(table)@), rec@),
        unique_keys::<T>(views(final(table)@)),
{
    let ghost s = views(table@);
    let ghost k = T::record_key(rec@);
    let mut i = table.len();
    assert(s.subrange(0, i as int) =~= s);
    while i > 0
        invariant
            s == views(table@),
            table@ == old(table)@,
            k == T::record_key(rec@),
            unique_keys::<T>(s),
            0 <= i <= table@.len(),
            key_index::<T>(s, k) == key_index::<T>(s.subrange(0, i as int), k),
        decreases i,
    {
        let found = table[i - 1].same_key(&rec);
        assert(s.subrange(0, i as int).last() == table@[i - 1]@);
        assert(s.subrange(0, i as int).drop_last() =~= s.subrange(0, i - 1));
        if found {
            assert(key_index::<T>(s, k) == i - 1);
            assert(upserted::<T>(s, rec@) == s.update(i - 1, rec@));
            let ghost before = views(table@);
            table.set(i - 1, rec);
            assert(views(table@) =~= before.update(i - 1, rec@));
            proof {
                lemma_upserted::<T>(s, rec@);
            }
            return;
        }
        assert(key_index::<T>(s.subrange(0, i as int), k) == key_index::<T>(s.subrange(0, i - 1), k));
        i = i - 1;
    }
    assert(s.subrange(0, 0) =~= Seq::<T::V>::empty());
    let ghost before = views(table@);
    table.push(rec);
    assert(views(table@) =~= before.push(rec@));
    proof {
        lemma_upserted::<T>(s, rec@);
    }
}

// ---------------------------------------------------------------------------
// Selection
// ---------------------------------------------------------------------------

/// The elements whose flag is set, in order.
pub open spec fn selected<V>(s: Seq<V>, flags: Seq<bool>) -> Seq<V>
    decreases s.len(),
{
    if s.len() == 0 {
        seq![]
    } else {
        let rest = selected(s.drop_last(), flags);
        if flags[s.len() - 1] {
            rest.push(s.last())
        } else {
            rest
        }
    }
}

pub proof fn lemma_selected<V>(s: Seq<V>, flags: Seq<bool>)
    requires
        flags.len() >= s.len(),
    ensures
        forall|v: V| #[trigger]
            selected(s, flags).contains(v) <==> exists|i: int|
                0 <= i < s.len() && flags[i] && #[trigger] s[i] == v,
        selected(s, flags).len() <= s.len(),
    decreases s.len(),
{
    if s.len() > 0 {
        let d = s.drop_last();
        lemma_selected(d, flags);
        let rest = selected(d, flags);
        let r = selected(s, flags);
        assert forall|v: V| #[trigger]
            r.contains(v) <==> exists|i: int| 0 <= i < s.len() && flags[i] && #[trigger] s[i] == v by {
            if r.contains(v) {
                let w = choose|w: int| 0 <= w < r.len() && r[w] == v;
                if w < rest.len() {
                    assert(rest[w] == v);
                    assert(rest.contains(v));
                    let i = choose|i: int| 0 <= i < d.len() && flags[i] && #[trigger] d[i] == v;
                    assert(s[i] == v);
                } else {
                    assert(s[s.len() - 1] == v);
                }
            }
            if exists|i: int| 0 <= i < s.len() && flags[i] && #[trigger] s[i] == v {
                let i = choose|i: int| 0 <= i < s.len() && flags[i] && #[trigger] s[i] == v;
                if i < s.len() - 1 {
                    assert(d[i] == v);
                    assert(rest.contains(v));
                    let w = choose|w: int| 0 <= w < rest.len() && rest[w] == v;
                    assert(r[w] == v);
                } else {
                    assert(r.last() == v);
                }
            }
        }
    }
}

/// A selection from a table with unique keys has unique keys.
pub proof fn lemma_selected_unique<T: StoredRecord>(s: Seq<T::V>, flags: Seq<bool>)
    requires
        unique_keys::<T>(s),
        flags.len() >= s.len(),
    ensures
        unique_keys::<T>(selected(s, flags)),
    decreases s.len(),
{
    if s.len() > 0 {
        let d = s.drop_last();
        assert(unique_keys::<T>(d)) by {
            assert forall|i: int, j: int| 0 <= i < j < d.len() implies T::record_key(#[trigger] d[i])
                != T::record_key(#[trigger] d[j]) by {
                assert(d[i] == s[i] && d[j] == s[j]);
            }
        }
        lemma_selected_unique::<T>(d, flags);
        lemma_selected(d, flags);
        let rest = selected(d, flags);
        if flags[s.len() - 1] {
            let r = rest.push(s.last());
            assert forall|i: int, j: int| 0 <= i < j < r.len() implies T::record_key(#[trigger] r[i])
                != T::record_key(#[trigger] r[j]) by {
                if j == rest.len() {
                    assert(rest.contains(rest[i]));
                    let w = choose|w: int| 0 <= w < d.len() && flags[w] && #[trigger] d[w] == rest[i];
                    assert(s[w] == rest[i]);
                    assert(T::record_key(s[w]) != T::record_key(s[s.len() - 1]));
                } else {
                    assert(r[i] == rest[i] && r[j] == rest[j]);
                }
            }
        }
    }
}

/// Copies of the records whose flag is set, in table order.
fn select<T: Duplicate>(table: &Vec<T>, flags: &Vec<bool>) -> (out: Vec<T>)
    requires
        flags@.len() == table@.len(),
    ensures
        views(out@) == selected(views(table@), flags@),
{
    let ghost s = views(table@);
    let mut out: Vec<T> = Vec::new();
    let mut i: usize = 0;
    while i < table.len()
        invariant
            s == views(table@),
            flags@.len() == table@.len(),
            0 <= i <= table@.len(),
            views(out@) == selected(s.subrange(0, i as int), flags@),
        decreases table.len() - i,
    {
        let ghost pre = s.subrange(0, i + 1);
        assert(pre.drop_last() =~= s.subrange(0, i as int));
        if flags[i] {
            let r = table[i].duplicate();
            let ghost before = views(out@);
            out.push(r);
            assert(views(out@) =~= before.push(r@));
        }
        i = i + 1;
    }
    assert(s.subrange(0, table@.len() as int) =~= s);
    out
}

// ---------------------------------------------------------------------------
// Scope and expiry
// ---------------------------------------------------------------------------

/// A record belongs to a listing: same namespace and tool, and, when a
/// resource (or error family) is asked for, either the same one or none.
pub open spec fn in_scope(
    namespace: Seq<char>,
    tool_name: Seq<char>,
    wanted: Option<Seq<char>>,
    r_namespace: Seq<char>,
    r_tool_name: Seq<char>,
    r_scope: Option<Seq<char>>,
) -> bool {
    r_namespace == namespace && r_tool_name == tool_name && (wanted is None || r_scope == wanted
        || r_scope is None)
}

fn in_scope_exec(
    namespace: &str,
    tool_name: &str,
    wanted: Option<&str>,
    r_namespace: &str,
    r_tool_name: &str,
    r_scope: &Option<String>,
) -> (b: bool)
    ensures
        b == in_scope(
            namespace@,
            tool_name@,
            match wanted {
                Some(w) => Some(w@),
                None => None,
            },
            r_namespace@,
            r_tool_name@,
            opt_view(*r_scope),
        ),
{
    if !text_eq(r_namespace, namespace) || !text_eq(r_tool_name, tool_name) {
        return false;
    }
    match wanted {
        None => true,
        Some(w) => match r_scope {
            None => true,
            Some(s) => text_eq(s.as_str(), w),
        },
    }
}

/// The second of its day at which a timestamp falls.
pub open spec fn second_of_day(secs: i64) -> int {
    secs as int % 86400
}

/// Whole seconds from `then` to `now`, truncated toward zero, as chrono's
/// `(now - then).num_seconds()` counts them (a time within a leap second
/// counts as chrono's `NaiveTime::signed_duration_since` counts it).
pub open spec fn elapsed_seconds(now: Stamp, then: Stamp) -> int {
    let ta = second_of_day(now.secs);
    let tb = second_of_day(then.secs);
    let leap: int = if ta > tb && then.nanos >= 1_000_000_000 {
        1
    } else if ta < tb && now.nanos >= 1_000_000_000 {
        -1
    } else {
        0
    };
    let frac = now.nanos - then.nanos;
    let secs = now.secs - then.secs + leap + frac / 1_000_000_000;
    let nanos = frac % 1_000_000_000;
    if secs < 0 && nanos > 0 {
        secs + 1
    } else {
        secs
    }
}

/// Floor division and remainder of `x` by a positive `d`.
fn div_mod_floor(x: i64, d: i64) -> (r: (i64, i64))
    requires
        0 < d,
    ensures
        r.0 == x as int / d as int,
        r.1 == x as int % d as int,
{
    if x >= 0 {
        let f = x as u64;
        let q = f / (d as u64);
        let m = f % (d as u64);
        proof {
            vstd::arithmetic::div_mod::lemma_fundamental_div_mod(f as int, d as int);
            vstd::arithmetic::div_mod::lemma_fundamental_div_mod_converse(
                x as int,
                d as int,
                q as int,
                m as int,
            );
        }
        (q as i64, m as i64)
    } else {
        let f = (-(x as i128) - 1) as u64;
        let q0 = f / (d as u64);
        let m0 = f % (d as u64);
        proof {
            vstd::arithmetic::div_mod::lemma_fundamental_div_mod(f as int, d as int);
        }
        let q: i64 = -(q0 as i64) - 1;
        let m: i64 = d - 1 - (m0 as i64);
        proof {
            assert(x as int == q as int * d as int + m as int) by (nonlinear_arith)
                requires
                    f as int == -(x as int) - 1,
                    f as int == d as int * q0 as int + m0 as int,
                    q as int == -(q0 as int) - 1,
                    m as int == d as int - 1 - m0 as int,
            {
            }
            vstd::arithmetic::div_mod::lemma_fundamental_div_mod_converse(
                x as int,
                d as int,
                q as int,
                m as int,
            );
        }
        (q, m)
    }
}

/// A TTL as the `i64` it becomes under `as i64`.
pub open spec fn ttl_as_i64(ttl: u64) -> int {
    if ttl <= i64::MAX {
        ttl as int
    } else {
        ttl - 0x1_0000_0000_0000_0000
    }
}

/// A record stamped `stamp` has outlived its TTL (or the default TTL) at `now`.
pub open spec fn expired(now: Stamp, stamp: Stamp, ttl: Option<u64>, default_ttl: u64) -> bool {
    elapsed_seconds(now, stamp) > ttl_as_i64(
        match ttl {
            Some(t) => t,
            None => default_ttl,
        },
    )
}

pub fn expired_exec(now: Stamp, stamp: Stamp, ttl: Option<u64>, default_ttl: u64) -> (b: bool)
    ensures
        b == expired(now, stamp, ttl, default_ttl),
{
    let (_, ta) = div_mod_floor(now.secs, 86400);
    let (_, tb) = div_mod_floor(stamp.secs, 86400);
    let leap: i128 = if ta > tb && stamp.nanos >= 1_000_000_000 {
        1
    } else if ta < tb && now.nanos >= 1_000_000_000 {
        -1
    } else {
        0
    };
    let frac: i64 = now.nanos as i64 - stamp.nanos as i64;
    let (q, nanos) = div_mod_floor(frac, 1_000_000_000);
    let secs: i128 = now.secs as i128 - stamp.secs as i128 + leap + q as i128;
    let whole: i128 = if secs < 0 && nanos > 0 {
        secs + 1
    } else {
        secs
    };
    let t = match ttl {
        Some(t) => t,
        None => default_ttl,
    };
    let limit: i128 = if t <= 0x7fff_ffff_ffff_ffff {
        t as i128
    } else {
        t as i128 - 0x1_0000_0000_0000_0000
    };
    whole > limit
}

// ---------------------------------------------------------------------------
// Listing specifications
// ---------------------------------------------------------------------------

pub open spec fn spec_list_facts(
    s: Seq<FactView>,
    namespace: Seq<char>,
    tool_name: Seq<char>,
    resource_id: Option<Seq<char>>,
) -> Seq<FactView> {
    selected(
        s,
        s.map_values(
            |f: FactView|
                in_scope(namespace, tool_name, resource_id, f.namespace, f.tool_name, f.resource_id),
        ),
    )
}

pub open spec fn spec_list_playbooks(
    s: Seq<PlaybookView>,
    namespace: Seq<char>,
    tool_name: Seq<char>,
    error_family: Option<Seq<char>>,
) -> Seq<PlaybookView> {
    selected(
        s,
        s.map_values(
            |p: PlaybookView|
                in_scope(
                    namespace,
                    tool_name,
                    error_family,
                    p.namespace,
                    p.tool_name,
                    p.error_family,
                ),
        ),
    )
}

pub open spec fn spec_list_observations(
    s: Seq<ObservationView>,
    namespace: Seq<char>,
    tool_name: Seq<char>,
    resource_id: Option<Seq<char>>,
    default_ttl: u64,
    now: Stamp,
) -> Seq<ObservationView> {
    selected(
        s,
        s.map_values(
            |o: ObservationView|
                !expired(now, o.updated_at, o.ttl_seconds, default_ttl) && in_scope(
                    namespace,
                    tool_name,
                    resource_id,
                    o.namespace,
                    o.tool_name,
                    o.resource_id,
                ),
        ),
    )
}

pub open spec fn spec_list_constraints(
    s: Seq<ConstraintView>,
    namespace: Seq<char>,
    tool_name: Seq<char>,
    resource_id: Option<Seq<char>>,
    default_ttl: u64,
    now: Stamp,
) -> Seq<ConstraintView> {
    selected(
        s,
        s.map_values(
            |c: ConstraintView|
                !expired(now, c.updated_at, c.ttl_seconds, default_ttl) && in_scope(
                    namespace,
                    tool_name,
                    resource_id,
                    c.namespace,
                    c.tool_name,
                    c.resource_id,
                ),
        ),
    )
}

pub open spec fn spec_list_failure_patterns(
    s: Seq<FailurePatternView>,
    namespace: Seq<char>,
    tool_name: Seq<char>,
    resource_id: Option<Seq<char>>,
    default_ttl: u64,
    now: Stamp,
) -> Seq<FailurePatternView> {
    selected(
        s,
        s.map_values(
            |p: FailurePatternView|
                !expired(now, p.last_seen, p.ttl_seconds, default_ttl) && in_scope(
                    namespace,
                    tool_name,
                    resource_id,
                    p.namespace,
                    p.tool_name,
                    p.resource_id,
                ),
        ),
    )
}

// ---------------------------------------------------------------------------
// Failure patterns: counting and eviction
// ---------------------------------------------------------------------------

/// The resource text of a failure pattern, the empty text standing for none.
pub open spec fn resource_or_empty(r: Option<Seq<char>>) -> Seq<char> {
    match r {
        Some(t) => t,
        None => seq![],
    }
}

/// Two failure patterns concern the same (namespace, tool, resource).
pub open spec fn same_resource(a: FailurePatternView, b: FailurePatternView) -> bool {
    a.namespace == b.namespace && a.tool_name == b.tool_name && resource_or_empty(a.resource_id)
        == resource_or_empty(b.resource_id)
}

/// Positions of the patterns concerning the same resource as `r`, in order.
pub open spec fn same_resource_positions(s: Seq<FailurePatternView>, r: FailurePatternView) -> Seq<
    int,
>
    decreases s.len(),
{
    if s.len() == 0 {
        seq![]
    } else {
        let rest = same_resource_positions(s.drop_last(), r);
        if same_resource(s.last(), r) {
            rest.push(s.len() - 1)
        } else {
            rest
        }
    }
}

/// The first position among `ps` with the earliest `first_seen`.
pub open spec fn oldest(s: Seq<FailurePatternView>, ps: Seq<int>) -> int
    decreases ps.len(),
{
    if ps.len() <= 1 {
        ps[0]
    } else {
        let o = oldest(s, ps.drop_last());
        if stamp_before(s[ps.last()].first_seen, s[o].first_seen) {
            ps.last()
        } else {
            o
        }
    }
}

/// A stored pattern seen once more at `now`.
pub open spec fn seen_again(p: FailurePatternView, now: Stamp) -> FailurePatternView {
    FailurePatternView { occurrence_count: (p.occurrence_count + 1) as u32, last_seen: now, ..p }
}

/// The failure pattern table after recording `r` at `now`, and the record
/// returned: a pattern already stored under the key is counted once more and
/// re-stamped; a new one is added, after the oldest pattern of its resource is
/// dropped when the resource already has the maximum.
pub open spec fn recorded_failure(s: Seq<FailurePatternView>, r: FailurePatternView, now: Stamp) -> (
    Seq<FailurePatternView>,
    FailurePatternView,
) {
    let i = key_index::<FailurePatternRecord>(s, FailurePatternRecord::record_key(r));
    if i >= 0 {
        (s.update(i, seen_again(s[i], now)), seen_again(s[i], now))
    } else {
        let ps = same_resource_positions(s, r);
        let kept = if ps.len() >= MAX_FAILURE_PATTERNS_PER_RESOURCE {
            s.remove(oldest(s, ps))
        } else {
            s
        };
        (kept.push(r), r)
    }
}

/// Recording `r` cannot overflow the occurrence count.
pub open spec fn count_can_grow(s: Seq<FailurePatternView>, r: FailurePatternView) -> bool {
    let i = key_index::<FailurePatternRecord>(s, FailurePatternRecord::record_key(r));
    i >= 0 ==> s[i].occurrence_count < u32::MAX
}

fn same_resource_exec(a: &FailurePatternRecord, b: &FailurePatternRecord) -> (r: bool)
    ensures
        r == same_resource(a@, b@),
{
    let ra = match &a.resource_id {
        Some(t) => t.as_str(),
        None => "",
    };
    let rb = match &b.resource_id {
        Some(t) => t.as_str(),
        None => "",
    };
    proof {
        reveal_strlit("");
        assert(""@ =~= Seq::<char>::empty());
    }
    text_eq(a.namespace.as_str(), b.namespace.as_str()) && text_eq(
        a.tool_name.as_str(),
        b.tool_name.as_str(),
    ) && text_eq(ra, rb)
}

proof fn lemma_same_resource_positions(s: Seq<FailurePatternView>, r: FailurePatternView)
    ensures
        forall|k: int|
            0 <= k < same_resource_positions(s, r).len() ==> 0
                <= #[trigger] same_resource_positions(s, r)[k] < s.len() && same_resource(
                s[same_resource_positions(s, r)[k]],
                r,
            ),
    decreases s.len(),
{
    if s.len() > 0 {
        lemma_same_resource_positions(s.drop_last(), r);
        let d = s.drop_last();
        let rest = same_resource_positions(d, r);
        assert forall|k: int| 0 <= k < rest.len() implies s[#[trigger] rest[k]] == d[rest[k]] by {}
    }
}

proof fn lemma_oldest(s: Seq<FailurePatternView>, ps: Seq<int>)
    requires
        ps.len() >= 1,
    ensures
        exists|k: int| 0 <= k < ps.len() && ps[k] == oldest(s, ps),
    decreases ps.len(),
{
    if ps.len() > 1 {
        lemma_oldest(s, ps.drop_last());
        let k = choose|k: int| 0 <= k < ps.len() - 1 && ps.drop_last()[k] == oldest(s, ps.drop_last());
        assert(ps[k] == ps.drop_last()[k]);
        if stamp_before(s[ps.last()].first_seen, s[oldest(s, ps.drop_last())].first_seen) {
            assert(ps[ps.len() - 1] == oldest(s, ps));
        }
    } else {
        assert(ps[0] == oldest(s, ps));
    }
}

/// Records a failure pattern seen at `now` in a table (see `recorded_failure`).
#[verifier::loop_isolation(false)]
fn record_failure_in(table: &mut Vec<FailurePatternRecord>, record: FailurePatternRecord, now: Stamp) -> (r:
    FailurePatternRecord)
    requires
        unique_keys::<FailurePatternRecord>(views(old(table)@)),
        count_can_grow(views(old(table)@), record@),
    ensures
        (views(final(table)@), r@) == recorded_failure(views(old(table)@), record@, now),
        unique_keys::<FailurePatternRecord>(views(final(table)@)),
{
    let ghost s = views(table@);
    let ghost k = FailurePatternRecord::record_key(record@);
    // A pattern already stored under this key is counted again.
    let mut i = table.len();
    assert(s.subrange(0, i as int) =~= s);
    while i > 0
        invariant
            s == views(table@),
            k == FailurePatternRecord::record_key(record@),
            0 <= i <= s.len(),
            key_index::<FailurePatternRecord>(s, k) == key_index::<FailurePatternRecord>(
                s.subrange(0, i as int),
                k,
            ),
        decreases i,
    {
        let found = table[i - 1].same_key(&record);
        assert(s.subrange(0, i as int).last() == s[i - 1]);
        assert(s.subrange(0, i as int).drop_last() =~= s.subrange(0, i - 1));
        if found {
            assert(key_index::<FailurePatternRecord>(s, k) == i - 1);
            let mut e = table[i - 1].duplicate();
            e.occurrence_count = e.occurrence_count + 1;
            e.last_seen = now;
            let out = e.duplicate();
            let ghost ev = e@;
            assert(ev == seen_again(s[i - 1], now));
            table.set(i - 1, e);
            assert(views(table@) =~= s.update(i - 1, ev));
            proof {
                lemma_unique_update::<FailurePatternRecord>(s, i - 1, ev);
            }
            return out;
        }
        assert(key_index::<FailurePatternRecord>(s.subrange(0, i as int), k)
            == key_index::<FailurePatternRecord>(s.subrange(0, i - 1), k));
        i = i - 1;
    }
    assert(key_index::<FailurePatternRecord>(s, k) == -1);
    proof {
        lemma_key_index::<FailurePatternRecord>(s, k);
    }
    // Positions of the patterns of the same resource.
    let mut ps: Vec<usize> = Vec::new();
    let mut j: usize = 0;
    let ghost rv = record@;
    while j < table.len()
        invariant
            s == views(table@),
            rv == record@,
            0 <= j <= s.len(),
            ps@.map_values(|x: usize| x as int) =~= same_resource_positions(
                s.subrange(0, j as int),
                rv,
            ),
        decreases table.len() - j,
    {
        let same = same_resource_exec(&table[j], &record);
        let ghost pre = s.subrange(0, j + 1);
        assert(pre.drop_last() =~= s.subrange(0, j as int));
        assert(pre.last() == s[j as int]);
        if same {
            ps.push(j);
        }
        j = j + 1;
    }
    assert(s.subrange(0, s.len() as int) =~= s);
    let ghost psi = ps@.map_values(|x: usize| x as int);
    proof {
        lemma_same_resource_positions(s, rv);
    }
    let ghost kept = if psi.len() >= MAX_FAILURE_PATTERNS_PER_RESOURCE {
        s.remove(oldest(s, psi))
    } else {
        s
    };
    if ps.len() >= MAX_FAILURE_PATTERNS_PER_RESOURCE {
        // The first of those first seen earliest.
        let mut o = ps[0];
        let mut q: usize = 1;
        assert(psi.subrange(0, 1) =~= seq![psi[0]]);
        while q < ps.len()
            invariant
                s == views(table@),
                psi == ps@.map_values(|x: usize| x as int),
                forall|m: int| 0 <= m < psi.len() ==> 0 <= #[trigger] psi[m] < s.len(),
                1 <= q <= ps@.len(),
                o as int == oldest(s, psi.subrange(0, q as int)),
            decreases ps.len() - q,
        {
            let p = ps[q];
            assert(psi.subrange(0, q + 1).drop_last() =~= psi.subrange(0, q as int));
            assert(psi.subrange(0, q + 1).last() == p as int);
            proof {
                lemma_oldest(s, psi.subrange(0, q as int));
                let w = choose|w: int|
                    0 <= w < q && psi.subrange(0, q as int)[w] == oldest(
                        s,
                        psi.subrange(0, q as int),
                    );
                assert(psi[w] == o as int);
            }
            if stamp_before_exec(table[p].first_seen, table[o].first_seen) {
                o = p;
            }
            q = q + 1;
        }
        assert(psi.subrange(0, ps@.len() as int) =~= psi);
        proof {
            lemma_oldest(s, psi);
        }
        let ghost before_rm = views(table@);
        table.remove(o);
        assert(views(table@) =~= before_rm.remove(o as int));
        assert(o as int == oldest(s, psi));
        proof {
            lemma_unique_remove::<FailurePatternRecord>(s, o as int);
        }
        assert(unique_keys::<FailurePatternRecord>(kept));
    }
    assert(unique_keys::<FailurePatternRecord>(kept));
    assert(views(table@) =~= kept);
    let out = record.duplicate();
    let ghost before = views(table@);
    table.push(record);
    assert(views(table@) =~= before.push(rv));
    proof {
        assert forall|m: int| 0 <= m < kept.len() implies FailurePatternRecord::record_key(
            #[trigger] kept[m],
        ) != FailurePatternRecord::record_key(rv) by {
            assert(s.contains(kept[m]));
            let w = choose|w: int| 0 <= w < s.len() && s[w] == kept[m];
        }
        lemma_unique_push::<FailurePatternRecord>(kept, rv);
    }
    assert(unique_keys::<FailurePatternRecord>(views(table@)));
    out
}

/// The record returned by `recorded_failure` carries the id of the pattern recorded.
pub proof fn lemma_recorded_failure_id(s: Seq<FailurePatternView>, r: FailurePatternView, now: Stamp)
    ensures
        recorded_failure(s, r, now).1.id == r.id,
{
    lemma_key_index::<FailurePatternRecord>(s, FailurePatternRecord::record_key(r));
}

/// Two failure patterns that differ at most in their `last_seen` stamp.
pub open spec fn same_but_stamp(a: FailurePatternView, b: FailurePatternView) -> bool {
    &&& a.id == b.id
    &&& a.namespace == b.namespace
    &&& a.tool_name == b.tool_name
    &&& a.resource_id == b.resource_id
    &&& a.error_family == b.error_family
    &&& a.pattern == b.pattern
    &&& a.occurrence_count == b.occurrence_count
    &&& a.first_seen == b.first_seen
    &&& a.ttl_seconds == b.ttl_seconds
}

/// Two failure pattern tables that differ at most in `last_seen` stamps: what
/// recording depends on, since the time of a recording only stamps `last_seen`.
pub open spec fn differ_in_stamps(s: Seq<FailurePatternView>, t: Seq<FailurePatternView>) -> bool {
    s.len() == t.len() && forall|j: int| 0 <= j < s.len() ==> same_but_stamp(#[trigger] s[j], t[j])
}

proof fn lemma_stamps_drop_last(s: Seq<FailurePatternView>, t: Seq<FailurePatternView>)
    requires
        differ_in_stamps(s, t),
        s.len() > 0,
    ensures
        differ_in_stamps(s.drop_last(), t.drop_last()),
        same_but_stamp(s.last(), t.last()),
{
    assert forall|j: int| 0 <= j < s.len() - 1 implies same_but_stamp(
        #[trigger] s.drop_last()[j],
        t.drop_last()[j],
    ) by {
        assert(same_but_stamp(s[j], t[j]));
    }
    assert(same_but_stamp(s[s.len() - 1], t[s.len() - 1]));
}

proof fn lemma_key_index_stamps(
    s: Seq<FailurePatternView>,
    t: Seq<FailurePatternView>,
    k: (Seq<char>, Seq<char>, Seq<char>),
)
    requires
        differ_in_stamps(s, t),
    ensures
        key_index::<FailurePatternRecord>(s, k) == key_index::<FailurePatternRecord>(t, k),
    decreases s.len(),
{
    if s.len() > 0 {
        lemma_stamps_drop_last(s, t);
        lemma_key_index_stamps(s.drop_last(), t.drop_last(), k);
    }
}

proof fn lemma_positions_stamps(
    s: Seq<FailurePatternView>,
    t: Seq<FailurePatternView>,
    r: FailurePatternView,
)
    requires
        differ_in_stamps(s, t),
    ensures
        same_resource_positions(s, r) == same_resource_positions(t, r),
    decreases s.len(),
{
    if s.len() > 0 {
        lemma_stamps_drop_last(s, t);
        lemma_positions_stamps(s.drop_last(), t.drop_last(), r);
    }
}

proof fn lemma_oldest_stamps(s: Seq<FailurePatternView>, t: Seq<FailurePatternView>, ps: Seq<int>)
    requires
        differ_in_stamps(s, t),
        ps.len() >= 1,
        forall|m: int| 0 <= m < ps.len() ==> 0 <= #[trigger] ps[m] < s.len(),
    ensures
        oldest(s, ps) == oldest(t, ps),
    decreases ps.len(),
{
    if ps.len() > 1 {
        let d = ps.drop_last();
        assert forall|m: int| 0 <= m < d.len() implies 0 <= #[trigger] d[m] < s.len() by {
            assert(d[m] == ps[m]);
        }
        lemma_oldest_stamps(s, t, d);
        lemma_oldest(s, d);
        let o = oldest(s, d);
        let w = choose|w: int| 0 <= w < d.len() && d[w] == o;
        assert(d[w] == ps[w]);
        assert(same_but_stamp(s[o], t[o]));
        assert(same_but_stamp(s[ps.last()], t[ps.last()]));
    }
}

/// Recording a pattern in two tables that differ only in their `last_seen`
/// stamps, at any two times, gives tables that differ only in those stamps,
/// and the count can grow in one exactly when it can in the other.
pub proof fn lemma_recorded_stamps(
    s: Seq<FailurePatternView>,
    t: Seq<FailurePatternView>,
    r: FailurePatternView,
    n: Stamp,
    m: Stamp,
)
    requires
        differ_in_stamps(s, t),
    ensures
        differ_in_stamps(recorded_failure(s, r, n).0, recorded_failure(t, r, m).0),
        count_can_grow(s, r) == count_can_grow(t, r),
{
    let k = FailurePatternRecord::record_key(r);
    lemma_key_index_stamps(s, t, k);
    lemma_key_index::<FailurePatternRecord>(s, k);
    let i = key_index::<FailurePatternRecord>(s, k);
    let a = recorded_failure(s, r, n).0;
    let b = recorded_failure(t, r, m).0;
    if i >= 0 {
        assert(same_but_stamp(s[i], t[i]));
        assert forall|j: int| 0 <= j < a.len() implies same_but_stamp(#[trigger] a[j], b[j]) by {
            assert(same_but_stamp(s[j], t[j]));
        }
    } else {
        lemma_positions_stamps(s, t, r);
        let ps = same_resource_positions(s, r);
        if ps.len() >= MAX_FAILURE_PATTERNS_PER_RESOURCE {
            lemma_same_resource_positions(s, r);
            assert forall|q: int| 0 <= q < ps.len() implies 0 <= #[trigger] ps[q] < s.len() by {}
            lemma_oldest_stamps(s, t, ps);
            lemma_oldest(s, ps);
            let o = oldest(s, ps);
            assert(0 <= o < s.len());
            let ks = s.remove(o);
            let kt = t.remove(o);
            assert(a == ks.push(r));
            assert(b == kt.push(r));
            assert forall|j: int| 0 <= j < a.len() implies same_but_stamp(#[trigger] a[j], b[j]) by {
                if j < ks.len() {
                    if j < o {
                        assert(same_but_stamp(s[j], t[j]));
                    } else {
                        assert(same_but_stamp(s[j + 1], t[j + 1]));
                    }
                }
            }
        } else {
            assert forall|j: int| 0 <= j < a.len() implies same_but_stamp(#[trigger] a[j], b[j]) by {
                if j < s.len() {
                    assert(same_but_stamp(s[j], t[j]));
                }
            }
        }
    }
}

/// A failure pattern table after recording each pattern in turn at `now`.
pub open spec fn record_all(
    s: Seq<FailurePatternView>,
    rs: Seq<FailurePatternView>,
    now: Stamp,
) -> Seq<FailurePatternView>
    decreases rs.len(),
{
    if rs.len() == 0 {
        s
    } else {
        recorded_failure(record_all(s, rs.drop_last(), now), rs.last(), now).0
    }
}

/// Recording the patterns one after another at `now` never counts a pattern
/// whose count is already `u32::MAX`.
pub open spec fn failures_fit(
    s: Seq<FailurePatternView>,
    rs: Seq<FailurePatternView>,
    now: Stamp,
) -> bool
    decreases rs.len(),
{
    if rs.len() == 0 {
        true
    } else {
        failures_fit(s, rs.drop_last(), now) && count_can_grow(
            record_all(s, rs.drop_last(), now),
            rs.last(),
        )
    }
}

/// Whether a sequence of failure patterns can be recorded does not depend on
/// the time of recording.
pub proof fn lemma_fit_at_any_time(s: Seq<FailurePatternView>, rs: Seq<FailurePatternView>, n: Stamp, m: Stamp)
    ensures
        failures_fit(s, rs, n) == failures_fit(s, rs, m),
        differ_in_stamps(record_all(s, rs, n), record_all(s, rs, m)),
    decreases rs.len(),
{
    if rs.len() > 0 {
        lemma_fit_at_any_time(s, rs.drop_last(), n, m);
        lemma_recorded_stamps(
            record_all(s, rs.drop_last(), n),
            record_all(s, rs.drop_last(), m),
            rs.last(),
            n,
            m,
        );
    }
}

/// A sequence that can be recorded can be recorded up to any point.
pub proof fn lemma_fit_prefix(s: Seq<FailurePatternView>, rs: Seq<FailurePatternView>, k: int, now: Stamp)
    requires
        failures_fit(s, rs, now),
        0 <= k <= rs.len(),
    ensures
        failures_fit(s, rs.subrange(0, k), now),
    decreases rs.len(),
{
    if k == rs.len() {
        assert(rs.subrange(0, k) =~= rs);
    } else {
        lemma_fit_prefix(s, rs.drop_last(), k, now);
        assert(rs.drop_last().subrange(0, k) =~= rs.subrange(0, k));
    }
}

/// Whether recording `record` in `table` keeps its count within `u32`.
fn table_can_grow(table: &Vec<FailurePatternRecord>, record: &FailurePatternRecord) -> (b: bool)
    ensures
        b == count_can_grow(views(table@), record@),
{
    let ghost s = views(table@);
    let ghost k = FailurePatternRecord::record_key(record@);
    let mut i = table.len();
    assert(s.subrange(0, i as int) =~= s);
    while i > 0
        invariant
            s == views(table@),
            k == FailurePatternRecord::record_key(record@),
            0 <= i <= s.len(),
            key_index::<FailurePatternRecord>(s, k) == key_index::<FailurePatternRecord>(
                s.subrange(0, i as int),
                k,
            ),
        decreases i,
    {
        let found = table[i - 1].same_key(record);
        assert(s.subrange(0, i as int).last() == s[i - 1]);
        assert(s.subrange(0, i as int).drop_last() =~= s.subrange(0, i - 1));
        if found {
            assert(key_index::<FailurePatternRecord>(s, k) == i - 1);
            return table[i - 1].occurrence_count < 0xffff_ffff;
        }
        assert(key_index::<FailurePatternRecord>(s.subrange(0, i as int), k)
            == key_index::<FailurePatternRecord>(s.subrange(0, i - 1), k));
        i = i - 1;
    }
    true
}

// ---------------------------------------------------------------------------
// The store
// ---------------------------------------------------------------------------

/// The tables of an in-memory store and its default TTL.
pub struct StoreView {
    pub facts: Seq<FactView>,
    pub playbooks: Seq<PlaybookView>,
    pub observations: Seq<ObservationView>,
    pub constraints: Seq<ConstraintView>,
    pub failure_patterns: Seq<FailurePatternView>,
    pub default_ttl: u64,
}

/// An in-memory store of records.
pub struct InMemoryStore {
    facts: Vec<FactRecord>,
    playbooks: Vec<PlaybookRecord>,
    observations: Vec<ObservationRecord>,
    constraints: Vec<ConstraintRecord>,
    failure_patterns: Vec<FailurePatternRecord>,
    default_ttl: u64,
}

impl View for InMemoryStore {
    type V = StoreView;

    closed spec fn view(&self) -> StoreView {
        StoreView {
            facts: views(self.facts@),
            playbooks: views(self.playbooks@),
            observations: views(self.observations@),
            constraints: views(self.constraints@),
            failure_patterns: views(self.failure_patterns@),
            default_ttl: self.default_ttl,
        }
    }
}

/// Every table holds at most one record per key.
pub open spec fn store_wf(v: StoreView) -> bool {
    &&& unique_keys::<FactRecord>(v.facts)
    &&& unique_keys::<PlaybookRecord>(v.playbooks)
    &&& unique_keys::<ObservationRecord>(v.observations)
    &&& unique_keys::<ConstraintRecord>(v.constraints)
    &&& unique_keys::<FailurePatternRecord>(v.failure_patterns)
}

impl InMemoryStore {
    #[verifier::type_invariant]
    closed spec fn inv(self) -> bool {
        store_wf(self@)
    }

    /// An empty store whose expiring records live `default_ttl` seconds unless
    /// they carry their own TTL.
    pub fn new(default_ttl: u64) -> (s: Self)
        ensures
            s@.facts.len() == 0,
            s@.playbooks.len() == 0,
            s@.observations.len() == 0,
            s@.constraints.len() == 0,
            s@.failure_patterns.len() == 0,
            s@.default_ttl == default_ttl,
    {
        let s = InMemoryStore {
            facts: Vec::new(),
            playbooks: Vec::new(),
            observations: Vec::new(),
            constraints: Vec::new(),
            failure_patterns: Vec::new(),
            default_ttl,
        };
        assert(views(s.facts@) =~= Seq::<FactView>::empty());
        assert(views(s.playbooks@) =~= Seq::<PlaybookView>::empty());
        assert(views(s.observations@) =~= Seq::<ObservationView>::empty());
        assert(views(s.constraints@) =~= Seq::<ConstraintView>::empty());
        assert(views(s.failure_patterns@) =~= Seq::<FailurePatternView>::empty());
        s
    }

    /// Stores a fact, replacing the one with the same key; returns it.
    pub fn put_fact(&mut self, record: FactRecord) -> (r: FactRecord)
        ensures
            store_wf(old(self)@),
            store_wf(final(self)@),
            r@ == record@,
            final(self)@ == (StoreView {
                facts: upserted::<FactRecord>(old(self)@.facts, record@),
                ..old(self)@
            }),
    {
        proof {
            use_type_invariant(&*self);
        }
        let out = record.duplicate();
        let mut table = Vec::new();
        std::mem::swap(&mut table, &mut self.facts);
        upsert(&mut table, record);
        self.facts = table;
        out
    }

    /// Stores a playbook, replacing the one with the same key; returns it.
    pub fn put_playbook(&mut self, record: PlaybookRecord) -> (r: PlaybookRecord)
        ensures
            store_wf(old(self)@),
            store_wf(final(self)@),
            r@ == record@,
            final(self)@ == (StoreView {
                playbooks: upserted::<PlaybookRecord>(old(self)@.playbooks, record@),
                ..old(self)@
            }),
    {
        proof {
            use_type_invariant(&*self);
        }
        let out = record.duplicate();
        let mut table = Vec::new();
        std::mem::swap(&mut table, &mut self.playbooks);
        upsert(&mut table, record);
        self.playbooks = table;
        out
    }

    /// Stores an observation, replacing the one with the same key; returns it.
    pub fn put_observation(&mut self, record: ObservationRecord) -> (r: ObservationRecord)
        ensures
            store_wf(old(self)@),
            store_wf(final(self)@),
            r@ == record@,
            final(self)@ == (StoreView {
                observations: upserted::<ObservationRecord>(old(self)@.observations, record@),
                ..old(self)@
            }),
    {
        proof {
            use_type_invariant(&*self);
        }
        let out = record.duplicate();
        let mut table = Vec::new();
        std::mem::swap(&mut table, &mut self.observations);
        upsert(&mut table, record);
        self.observations = table;
        out
    }

    /// Stores a constraint, replacing the one with the same key; returns it.
    pub fn put_constraint(&mut self, record: ConstraintRecord) -> (r: ConstraintRecord)
        ensures
            store_wf(old(self)@),
            store_wf(final(self)@),
            r@ == record@,
            final(self)@ == (StoreView {
                constraints: upserted::<ConstraintRecord>(old(self)@.constraints, record@),
                ..old(self)@
            }),
    {
        proof {
            use_type_invariant(&*self);
        }
        let out = record.duplicate();
        let mut table = Vec::new();
        std::mem::swap(&mut table, &mut self.constraints);
        upsert(&mut table, record);
        self.constraints = table;
        out
    }

    /// The facts of a namespace and tool; when a resource is given, those for
    /// that resource and those for none.
    pub fn list_facts(&self, namespace: &str, tool_name: &str, resource_id: Option<&str>) -> (r: Vec<
        FactRecord,
    >)
        ensures
            views(r@) == spec_list_facts(self@.facts, namespace@, tool_name@, opt_str(resource_id)),
    {
        let ghost s = self@.facts;
        let mut flags: Vec<bool> = Vec::new();
        let mut i: usize = 0;
        while i < self.facts.len()
            invariant
                s == views(self.facts@),
                0 <= i <= self.facts@.len(),
                flags@ =~= s.subrange(0, i as int).map_values(
                    |f: FactView|
                        in_scope(
                            namespace@,
                            tool_name@,
                            opt_str(resource_id),
                            f.namespace,
                            f.tool_name,
                            f.resource_id,
                        ),
                ),
            decreases self.facts.len() - i,
        {
            let f = &self.facts[i];
            flags.push(
                in_scope_exec(
                    namespace,
                    tool_name,
                    resource_id,
                    f.namespace.as_str(),
                    f.tool_name.as_str(),
                    &f.resource_id,
                ),
            );
            assert(s.subrange(0, i + 1) =~= s.subrange(0, i as int).push(s[i as int]));
            i = i + 1;
        }
        assert(s.subrange(0, self.facts@.len() as int) =~= s);
        select(&self.facts, &flags)
    }

    /// The playbooks of a namespace and tool; when an error family is given,
    /// those for that family and those for none.
    pub fn list_playbooks(&self, namespace: &str, tool_name: &str, error_family: Option<&str>) -> (r:
        Vec<PlaybookRecord>)
        ensures
            views(r@) == spec_list_playbooks(
                self@.playbooks,
                namespace@,
                tool_name@,
                opt_str(error_family),
            ),
    {
        let ghost s = self@.playbooks;
        let mut flags: Vec<bool> = Vec::new();
        let mut i: usize = 0;
        while i < self.playbooks.len()
            invariant
                s == views(self.playbooks@),
                0 <= i <= self.playbooks@.len(),
                flags@ =~= s.subrange(0, i as int).map_values(
                    |p: PlaybookView|
                        in_scope(
                            namespace@,
                            tool_name@,
                            opt_str(error_family),
                            p.namespace,
                            p.tool_name,
                            p.error_family,
                        ),
                ),
            decreases self.playbooks.len() - i,
        {
            let p = &self.playbooks[i];
            flags.push(
                in_scope_exec(
                    namespace,
                    tool_name,
                    error_family,
                    p.namespace.as_str(),
                    p.tool_name.as_str(),
                    &p.error_family,
                ),
            );
            assert(s.subrange(0, i + 1) =~= s.subrange(0, i as int).push(s[i as int]));
            i = i + 1;
        }
        assert(s.subrange(0, self.playbooks@.len() as int) =~= s);
        select(&self.playbooks, &flags)
    }

    /// The observations of a namespace and tool that have not expired at
    /// `now`; when a resource is given, those for it and those for none.
    pub fn list_observations_at(
        &self,
        namespace: &str,
        tool_name: &str,
        resource_id: Option<&str>,
        now: Stamp,
    ) -> (r: Vec<ObservationRecord>)
        ensures
            views(r@) == spec_list_observations(
                self@.observations,
                namespace@,
                tool_name@,
                opt_str(resource_id),
                self@.default_ttl,
                now,
            ),
    {
        let ghost s = self@.observations;
        let mut flags: Vec<bool> = Vec::new();
        let mut i: usize = 0;
        while i < self.observations.len()
            invariant
                s == views(self.observations@),
                0 <= i <= self.observations@.len(),
                flags@ =~= s.subrange(0, i as int).map_values(
                    |o: ObservationView|
                        !expired(now, o.updated_at, o.ttl_seconds, self.default_ttl) && in_scope(
                            namespace@,
                            tool_name@,
                            opt_str(resource_id),
                            o.namespace,
                            o.tool_name,
                            o.resource_id,
                        ),
                ),
            decreases self.observations.len() - i,
        {
            let o = &self.observations[i];
            let keep = !expired_exec(now, o.updated_at, o.ttl_seconds, self.default_ttl)
                && in_scope_exec(
                namespace,
                tool_name,
                resource_id,
                o.namespace.as_str(),
                o.tool_name.as_str(),
                &o.resource_id,
            );
            flags.push(keep);
            assert(s.subrange(0, i + 1) =~= s.subrange(0, i as int).push(s[i as int]));
            i = i + 1;
        }
        assert(s.subrange(0, self.observations@.len() as int) =~= s);
        select(&self.observations, &flags)
    }

    /// The constraints of a namespace and tool that have not expired at
    /// `now`; when a resource is given, those for it and those for none.
    pub fn list_constraints_at(
        &self,
        namespace: &str,
        tool_name: &str,
        resource_id: Option<&str>,
        now: Stamp,
    ) -> (r: Vec<ConstraintRecord>)
        ensures
            views(r@) == spec_list_constraints(
                self@.constraints,
                namespace@,
                tool_name@,
                opt_str(resource_id),
                self@.default_ttl,
                now,
            ),
    {
        let ghost s = self@.constraints;
        let mut flags: Vec<bool> = Vec::new();
        let mut i: usize = 0;
        while i < self.constraints.len()
            invariant
                s == views(self.constraints@),
                0 <= i <= self.constraints@.len(),
                flags@ =~= s.subrange(0, i as int).map_values(
                    |c: ConstraintView|
                        !expired(now, c.updated_at, c.ttl_seconds, self.default_ttl) && in_scope(
                            namespace@,
                            tool_name@,
                            opt_str(resource_id),
                            c.namespace,
                            c.tool_name,
                            c.resource_id,
                        ),
                ),
            decreases self.constraints.len() - i,
        {
            let c = &self.constraints[i];
            let keep = !expired_exec(now, c.updated_at, c.ttl_seconds, self.default_ttl)
                && in_scope_exec(
                namespace,
                tool_name,
                resource_id,
                c.namespace.as_str(),
                c.tool_name.as_str(),
                &c.resource_id,
            );
            flags.push(keep);
            assert(s.subrange(0, i + 1) =~= s.subrange(0, i as int).push(s[i as int]));
            i = i + 1;
        }
        assert(s.subrange(0, self.constraints@.len() as int) =~= s);
        select(&self.constraints, &flags)
    }

    /// The failure patterns of a namespace and tool not expired at `now`
    /// (counted from when they were last seen); when a resource is given,
    /// those for it and those for none.
    pub fn list_failure_patterns_at(
        &self,
        namespace: &str,
        tool_name: &str,
        resource_id: Option<&str>,
        now: Stamp,
    ) -> (r: Vec<FailurePatternRecord>)
        ensures
            views(r@) == spec_list_failure_patterns(
                self@.failure_patterns,
                namespace@,
                tool_name@,
                opt_str(resource_id),
                self@.default_ttl,
                now,
            ),
    {
        let ghost s = self@.failure_patterns;
        let mut flags: Vec<bool> = Vec::new();
        let mut i: usize = 0;
        while i < self.failure_patterns.len()
            invariant
                s == views(self.failure_patterns@),
                0 <= i <= self.failure_patterns@.len(),
                flags@ =~= s.subrange(0, i as int).map_values(
                    |p: FailurePatternView|
                        !expired(now, p.last_seen, p.ttl_seconds, self.default_ttl) && in_scope(
                            namespace@,
                            tool_name@,
                            opt_str(resource_id),
                            p.namespace,
                            p.tool_name,
                            p.resource_id,
                        ),
                ),
            decreases self.failure_patterns.len() - i,
        {
            let p = &self.failure_patterns[i];
            let keep = !expired_exec(now, p.last_seen, p.ttl_seconds, self.default_ttl)
                && in_scope_exec(
                namespace,
                tool_name,
                resource_id,
                p.namespace.as_str(),
                p.tool_name.as_str(),
                &p.resource_id,
            );
            flags.push(keep);
            assert(s.subrange(0, i + 1) =~= s.subrange(0, i as int).push(s[i as int]));
            i = i + 1;
        }
        assert(s.subrange(0, self.failure_patterns@.len() as int) =~= s);
        select(&self.failure_patterns, &flags)
    }

    /// The observations listed now (see `list_observations_at`).
    pub fn list_observations(&self, namespace: &str, tool_name: &str, resource_id: Option<&str>) -> (r:
        Vec<ObservationRecord>)
        ensures
            exists|now: Stamp|
                views(r@) == spec_list_observations(
                    self@.observations,
                    namespace@,
                    tool_name@,
                    opt_str(resource_id),
                    self@.default_ttl,
                    now,
                ),
    {
        let now = utc_now();
        self.list_observations_at(namespace, tool_name, resource_id, now)
    }

    /// The constraints listed now (see `list_constraints_at`).
    pub fn list_constraints(&self, namespace: &str, tool_name: &str, resource_id: Option<&str>) -> (r:
        Vec<ConstraintRecord>)
        ensures
            exists|now: Stamp|
                views(r@) == spec_list_constraints(
                    self@.constraints,
                    namespace@,
                    tool_name@,
                    opt_str(resource_id),
                    self@.default_ttl,
                    now,
                ),
    {
        let now = utc_now();
        self.list_constraints_at(namespace, tool_name, resource_id, now)
    }

    /// The failure patterns listed now (see `list_failure_patterns_at`).
    pub fn list_failure_patterns(
        &self,
        namespace: &str,
        tool_name: &str,
        resource_id: Option<&str>,
    ) -> (r: Vec<FailurePatternRecord>)
        ensures
            exists|now: Stamp|
                views(r@) == spec_list_failure_patterns(
                    self@.failure_patterns,
                    namespace@,
                    tool_name@,
                    opt_str(resource_id),
                    self@.default_ttl,
                    now,
                ),
    {
        let now = utc_now();
        self.list_failure_patterns_at(namespace, tool_name, resource_id, now)
    }

    /// Whether recording `record` keeps its occurrence count within `u32`.
    pub fn can_record_failure_pattern(&self, record: &FailurePatternRecord) -> (b: bool)
        ensures
            b == count_can_grow(self@.failure_patterns, record@),
    {
        table_can_grow(&self.failure_patterns, record)
    }

    /// Whether the patterns can be recorded one after another without
    /// counting a pattern already at `u32::MAX` (the time of recording plays
    /// no part, see `lemma_fit_at_any_time`, so it is taken as the epoch).
    pub fn can_record_failure_patterns(&self, records: &Vec<FailurePatternRecord>) -> (b: bool)
        ensures
            b == failures_fit(self@.failure_patterns, views(records@), epoch()),
    {
        proof {
            use_type_invariant(&*self);
        }
        let ghost s = self@.failure_patterns;
        let ghost xs = views(records@);
        let mut table: Vec<FailurePatternRecord> = Vec::new();
        let mut j: usize = 0;
        while j < self.failure_patterns.len()
            invariant
                s == views(self.failure_patterns@),
                0 <= j <= s.len(),
                views(table@) =~= s.subrange(0, j as int),
            decreases self.failure_patterns.len() - j,
        {
            let c = self.failure_patterns[j].duplicate();
            table.push(c);
            assert(s.subrange(0, j + 1) =~= s.subrange(0, j as int).push(s[j as int]));
            j = j + 1;
        }
        assert(s.subrange(0, s.len() as int) =~= s);
        assert(record_all(s, xs.subrange(0, 0), epoch()) == s);
        let mut i: usize = 0;
        while i < records.len()
            invariant
                xs == views(records@),
                s == self@.failure_patterns,
                unique_keys::<FailurePatternRecord>(s),
                0 <= i <= xs.len(),
                views(table@) == record_all(s, xs.subrange(0, i as int), epoch()),
                unique_keys::<FailurePatternRecord>(views(table@)),
                failures_fit(s, xs.subrange(0, i as int), epoch()),
            decreases records.len() - i,
        {
            let ghost next = xs.subrange(0, i + 1);
            assert(next.drop_last() =~= xs.subrange(0, i as int));
            assert(next.last() == xs[i as int]);
            if !table_can_grow(&table, &records[i]) {
                proof {
                    assert(!count_can_grow(record_all(s, next.drop_last(), epoch()), next.last()));
                    assert(!failures_fit(s, next, epoch()));
                    if failures_fit(s, xs, epoch()) {
                        lemma_fit_prefix(s, xs, i + 1, epoch());
                    }
                }
                return false;
            }
            let rec = records[i].duplicate();
            record_failure_in(&mut table, rec, Stamp { secs: 0, nanos: 0 });
            i = i + 1;
        }
        assert(xs.subrange(0, xs.len() as int) =~= xs);
        true
    }

    /// Records a failure pattern seen at `now`. A pattern already stored under
    /// its key has its count raised by one and `last_seen` set to `now`, and
    /// is returned; otherwise, when its resource already holds the maximum of
    /// patterns, the one first seen earliest is dropped, and the new pattern is
    /// stored and returned.
    pub fn put_failure_pattern_at(&mut self, record: FailurePatternRecord, now: Stamp) -> (r:
        FailurePatternRecord)
        requires
            count_can_grow(old(self)@.failure_patterns, record@),
        ensures
            store_wf(old(self)@),
            store_wf(final(self)@),
            (final(self)@.failure_patterns, r@) == recorded_failure(
                old(self)@.failure_patterns,
                record@,
                now,
            ),
            final(self)@ == (StoreView {
                failure_patterns: final(self)@.failure_patterns,
                ..old(self)@
            }),
    {
        proof {
            use_type_invariant(&*self);
        }
        let mut table = Vec::new();
        std::mem::swap(&mut table, &mut self.failure_patterns);
        let out = record_failure_in(&mut table, record, now);
        self.failure_patterns = table;
        out
    }

    /// Records a failure pattern seen now (see `put_failure_pattern_at`).
    pub fn put_failure_pattern(&mut self, record: FailurePatternRecord) -> (r:
        FailurePatternRecord)
        requires
            count_can_grow(old(self)@.failure_patterns, record@),
        ensures
            exists|now: Stamp|
                (final(self)@.failure_patterns, r@) == recorded_failure(
                    old(self)@.failure_patterns,
                    record@,
                    now,
                ),
            final(self)@ == (StoreView {
                failure_patterns: final(self)@.failure_patterns,
                ..old(self)@
            }),
    {
        let now = utc_now();
        self.put_failure_pattern_at(record, now)
    }
}

// ---------------------------------------------------------------------------
// Laws of the store
// ---------------------------------------------------------------------------

/// Storing a record replaces the one stored under its key: afterwards the
/// table holds exactly one record with that key, the one stored, and every
/// record under another key is still there.
pub proof fn law_store_replaces<T: StoredRecord>(s: Seq<T::V>, rec: T::V)
    requires
        unique_keys::<T>(s),
    ensures
        unique_keys::<T>(upserted::<T>(s, rec)),
        upserted::<T>(s, rec).contains(rec),
        forall|i: int|
            0 <= i < upserted::<T>(s, rec).len() && T::record_key(
                #[trigger] upserted::<T>(s, rec)[i],
            ) == T::record_key(rec) ==> upserted::<T>(s, rec)[i] == rec,
        forall|j: int|
            0 <= j < s.len() && T::record_key(#[trigger] s[j]) != T::record_key(rec)
                ==> upserted::<T>(s, rec).contains(s[j]),
{
    lemma_upserted::<T>(s, rec);
    let u = upserted::<T>(s, rec);
    assert forall|i: int|
        0 <= i < u.len() && T::record_key(#[trigger] u[i]) == T::record_key(rec) implies u[i]
        == rec by {
        assert(u.contains(u[i]));
    }
}

/// A fact just stored is listed for its namespace and tool, when the listing
/// asks for no resource, for the fact's resource, or the fact has none.
pub proof fn law_stored_fact_is_listed(s: Seq<FactView>, rec: FactView, wanted: Option<Seq<char>>)
    requires
        unique_keys::<FactRecord>(s),
        wanted is None || wanted == rec.resource_id || rec.resource_id is None,
    ensures
        spec_list_facts(upserted::<FactRecord>(s, rec), rec.namespace, rec.tool_name, wanted).contains(
            rec,
        ),
{
    let u = upserted::<FactRecord>(s, rec);
    lemma_upserted::<FactRecord>(s, rec);
    let flags = u.map_values(
        |f: FactView|
            in_scope(rec.namespace, rec.tool_name, wanted, f.namespace, f.tool_name, f.resource_id),
    );
    lemma_selected(u, flags);
    let w = choose|w: int| 0 <= w < u.len() && u[w] == rec;
    assert(flags[w]);
}

/// A playbook just stored is listed for its namespace and tool, when the
/// listing asks for no error family, for the playbook's, or it has none.
pub proof fn law_stored_playbook_is_listed(
    s: Seq<PlaybookView>,
    rec: PlaybookView,
    wanted: Option<Seq<char>>,
)
    requires
        unique_keys::<PlaybookRecord>(s),
        wanted is None || wanted == rec.error_family || rec.error_family is None,
    ensures
        spec_list_playbooks(
            upserted::<PlaybookRecord>(s, rec),
            rec.namespace,
            rec.tool_name,
            wanted,
        ).contains(rec),
{
    let u = upserted::<PlaybookRecord>(s, rec);
    lemma_upserted::<PlaybookRecord>(s, rec);
    let flags = u.map_values(
        |p: PlaybookView|
            in_scope(rec.namespace, rec.tool_name, wanted, p.namespace, p.tool_name, p.error_family),
    );
    lemma_selected(u, flags);
    let w = choose|w: int| 0 <= w < u.len() && u[w] == rec;
    assert(flags[w]);
}

/// An observation just stored is listed for its namespace and tool (with the
/// same rule for resources) at any time before it expires.
pub proof fn law_stored_observation_is_listed(
    s: Seq<ObservationView>,
    rec: ObservationView,
    wanted: Option<Seq<char>>,
    default_ttl: u64,
    now: Stamp,
)
    requires
        unique_keys::<ObservationRecord>(s),
        wanted is None || wanted == rec.resource_id || rec.resource_id is None,
        !expired(now, rec.updated_at, rec.ttl_seconds, default_ttl),
    ensures
        spec_list_observations(
            upserted::<ObservationRecord>(s, rec),
            rec.namespace,
            rec.tool_name,
            wanted,
            default_ttl,
            now,
        ).contains(rec),
{
    let u = upserted::<ObservationRecord>(s, rec);
    lemma_upserted::<ObservationRecord>(s, rec);
    let flags = u.map_values(
        |o: ObservationView|
            !expired(now, o.updated_at, o.ttl_seconds, default_ttl) && in_scope(
                rec.namespace,
                rec.tool_name,
                wanted,
                o.namespace,
                o.tool_name,
                o.resource_id,
            ),
    );
    lemma_selected(u, flags);
    let w = choose|w: int| 0 <= w < u.len() && u[w] == rec;
    assert(flags[w]);
}

/// A constraint just stored is listed for its namespace and tool (with the
/// same rule for resources) at any time before it expires.
pub proof fn law_stored_constraint_is_listed(
    s: Seq<ConstraintView>,
    rec: ConstraintView,
    wanted: Option<Seq<char>>,
    default_ttl: u64,
    now: Stamp,
)
    requires
        unique_keys::<ConstraintRecord>(s),
        wanted is None || wanted == rec.resource_id || rec.resource_id is None,
        !expired(now, rec.updated_at, rec.ttl_seconds, default_ttl),
    ensures
        spec_list_constraints(
            upserted::<ConstraintRecord>(s, rec),
            rec.namespace,
            rec.tool_name,
            wanted,
            default_ttl,
            now,
        ).contains(rec),
{
    let u = upserted::<ConstraintRecord>(s, rec);
    lemma_upserted::<ConstraintRecord>(s, rec);
    let flags = u.map_values(
        |c: ConstraintView|
            !expired(now, c.updated_at, c.ttl_seconds, default_ttl) && in_scope(
                rec.namespace,
                rec.tool_name,
                wanted,
                c.namespace,
                c.tool_name,
                c.resource_id,
            ),
    );
    lemma_selected(u, flags);
    let w = choose|w: int| 0 <= w < u.len() && u[w] == rec;
    assert(flags[w]);
}

/// Every listed observation is stored, belongs to the namespace, tool and
/// resource asked for, and has not expired.
pub proof fn law_listed_observations_are_live(
    s: Seq<ObservationView>,
    namespace: Seq<char>,
    tool_name: Seq<char>,
    wanted: Option<Seq<char>>,
    default_ttl: u64,
    now: Stamp,
)
    ensures
        forall|o: ObservationView| #[trigger]
            spec_list_observations(s, namespace, tool_name, wanted, default_ttl, now).contains(o)
                ==> s.contains(o) && !expired(now, o.updated_at, o.ttl_seconds, default_ttl)
                && in_scope(namespace, tool_name, wanted, o.namespace, o.tool_name, o.resource_id),
{
    let flags = s.map_values(
        |o: ObservationView|
            !expired(now, o.updated_at, o.ttl_seconds, default_ttl) && in_scope(
                namespace,
                tool_name,
                wanted,
                o.namespace,
                o.tool_name,
                o.resource_id,
            ),
    );
    lemma_selected(s, flags);
    assert forall|o: ObservationView| #[trigger]
        spec_list_observations(s, namespace, tool_name, wanted, default_ttl, now).contains(
            o,
        ) implies s.contains(o) && !expired(now, o.updated_at, o.ttl_seconds, default_ttl)
        && in_scope(namespace, tool_name, wanted, o.namespace, o.tool_name, o.resource_id) by {
        let i = choose|i: int| 0 <= i < s.len() && flags[i] && #[trigger] s[i] == o;
        assert(flags[i]);
    }
}

/// Every listed fact is stored and belongs to the namespace, tool and
/// resource asked for.
pub proof fn law_listed_facts_are_in_scope(
    s: Seq<FactView>,
    namespace: Seq<char>,
    tool_name: Seq<char>,
    wanted: Option<Seq<char>>,
)
    ensures
        forall|f: FactView| #[trigger]
            spec_list_facts(s, namespace, tool_name, wanted).contains(f) ==> s.contains(f)
                && in_scope(namespace, tool_name, wanted, f.namespace, f.tool_name, f.resource_id),
{
    let flags = s.map_values(
        |f: FactView|
            in_scope(namespace, tool_name, wanted, f.namespace, f.tool_name, f.resource_id),
    );
    lemma_selected(s, flags);
    assert forall|f: FactView| #[trigger]
        spec_list_facts(s, namespace, tool_name, wanted).contains(f) implies s.contains(f)
        && in_scope(namespace, tool_name, wanted, f.namespace, f.tool_name, f.resource_id) by {
        let i = choose|i: int| 0 <= i < s.len() && flags[i] && #[trigger] s[i] == f;
        assert(flags[i]);
    }
}

/// Recording a failure pattern whose key is already stored counts it once
/// more: the stored and returned pattern is the old one with its count raised
/// by one and `last_seen` set to `now`; nothing else changes.
pub proof fn law_repeated_failure_is_counted(s: Seq<FailurePatternView>, r: FailurePatternView, now: Stamp)
    requires
        unique_keys::<FailurePatternRecord>(s),
        key_index::<FailurePatternRecord>(s, FailurePatternRecord::record_key(r)) >= 0,
        count_can_grow(s, r),
    ensures
        ({
            let i = key_index::<FailurePatternRecord>(s, FailurePatternRecord::record_key(r));
            let (t, out) = recorded_failure(s, r, now);
            &&& out.occurrence_count == s[i].occurrence_count + 1
            &&& out.last_seen == now
            &&& out.id == r.id && out.namespace == r.namespace && out.tool_name == r.tool_name
            &&& out.first_seen == s[i].first_seen && out.pattern == s[i].pattern
            &&& t == s.update(i, out)
        }),
{
    lemma_key_index::<FailurePatternRecord>(s, FailurePatternRecord::record_key(r));
}

/// A new failure pattern recorded twice is stored once, with a count of two.
pub proof fn law_failure_seen_twice(
    s: Seq<FailurePatternView>,
    r: FailurePatternView,
    first: Stamp,
    second: Stamp,
)
    requires
        unique_keys::<FailurePatternRecord>(s),
        key_index::<FailurePatternRecord>(s, FailurePatternRecord::record_key(r)) == -1,
        r.occurrence_count == 1,
    ensures
        ({
            let (t1, _) = recorded_failure(s, r, first);
            let (t2, out) = recorded_failure(t1, r, second);
            &&& out.occurrence_count == 2
            &&& out.last_seen == second
            &&& t2.contains(out)
            &&& t2.len() == t1.len()
        }),
{
    let k = FailurePatternRecord::record_key(r);
    let (t1, _) = recorded_failure(s, r, first);
    assert(t1.last() == r);
    assert(key_index::<FailurePatternRecord>(t1, k) == t1.len() - 1);
    let (t2, out) = recorded_failure(t1, r, second);
    assert(t2[t1.len() - 1] == out);
}

/// The number of failure patterns stored for the resource of `r`.
pub open spec fn resource_count(s: Seq<FailurePatternView>, r: FailurePatternView) -> nat {
    same_resource_positions(s, r).len()
}

/// No resource holds more than the maximum of failure patterns.
pub open spec fn within_cap(s: Seq<FailurePatternView>) -> bool {
    forall|j: int| 0 <= j < s.len() ==> resource_count(s, #[trigger] s[j])
        <= MAX_FAILURE_PATTERNS_PER_RESOURCE
}

proof fn lemma_count_same_group(s: Seq<FailurePatternView>, x: FailurePatternView, y: FailurePatternView)
    requires
        same_resource(x, y),
    ensures
        resource_count(s, x) == resource_count(s, y),
    decreases s.len(),
{
    if s.len() > 0 {
        lemma_count_same_group(s.drop_last(), x, y);
    }
}

proof fn lemma_count_update(
    s: Seq<FailurePatternView>,
    i: int,
    v: FailurePatternView,
    x: FailurePatternView,
)
    requires
        0 <= i < s.len(),
        same_resource(v, s[i]),
    ensures
        resource_count(s.update(i, v), x) == resource_count(s, x),
    decreases s.len(),
{
    let u = s.update(i, v);
    if i == s.len() - 1 {
        assert(u.drop_last() =~= s.drop_last());
    } else {
        lemma_count_update(s.drop_last(), i, v, x);
        assert(u.drop_last() =~= s.drop_last().update(i, v));
    }
}

proof fn lemma_count_remove(s: Seq<FailurePatternView>, o: int, x: FailurePatternView)
    requires
        0 <= o < s.len(),
    ensures
        resource_count(s.remove(o), x) + (if same_resource(s[o], x) {
            1int
        } else {
            0int
        }) == resource_count(s, x),
    decreases s.len(),
{
    let u = s.remove(o);
    if o == s.len() - 1 {
        assert(u =~= s.drop_last());
    } else {
        lemma_count_remove(s.drop_last(), o, x);
        assert(u.drop_last() =~= s.drop_last().remove(o));
        assert(u.last() == s.last());
    }
}

/// Recording a failure pattern keeps every resource within the maximum of
/// stored patterns.
pub proof fn law_failure_cap_kept(s: Seq<FailurePatternView>, r: FailurePatternView, now: Stamp)
    requires
        unique_keys::<FailurePatternRecord>(s),
        within_cap(s),
    ensures
        within_cap(recorded_failure(s, r, now).0),
{
    let k = FailurePatternRecord::record_key(r);
    lemma_key_index::<FailurePatternRecord>(s, k);
    let i = key_index::<FailurePatternRecord>(s, k);
    let t = recorded_failure(s, r, now).0;
    if i >= 0 {
        let v = seen_again(s[i], now);
        assert forall|j: int| 0 <= j < t.len() implies resource_count(t, #[trigger] t[j])
            <= MAX_FAILURE_PATTERNS_PER_RESOURCE by {
            lemma_count_update(s, i, v, t[j]);
            if j == i {
                lemma_count_same_group(s, v, s[i]);
            } else {
                assert(t[j] == s[j]);
            }
        }
    } else {
        let ps = same_resource_positions(s, r);
        lemma_same_resource_positions(s, r);
        let full = ps.len() >= MAX_FAILURE_PATTERNS_PER_RESOURCE;
        let kept = if full {
            s.remove(oldest(s, ps))
        } else {
            s
        };
        assert(t == kept.push(r));
        assert(kept.push(r).drop_last() =~= kept);
        if full {
            lemma_oldest(s, ps);
            let q = choose|q: int| 0 <= q < ps.len() && ps[q] == oldest(s, ps);
            assert(same_resource(s[ps[q]], r));
            // The resource was full, so it held exactly the maximum.
            assert(same_resource(s[ps[0]], r));
            lemma_count_same_group(s, s[ps[0]], r);
            assert(resource_count(s, s[ps[0]]) <= MAX_FAILURE_PATTERNS_PER_RESOURCE);
        }
        assert forall|j: int| 0 <= j < t.len() implies resource_count(t, #[trigger] t[j])
            <= MAX_FAILURE_PATTERNS_PER_RESOURCE by {
            let y = t[j];
            // Counting in `kept`, then in `kept.push(r)`.
            assert(resource_count(t, y) == resource_count(kept, y) + (if same_resource(r, y) {
                1int
            } else {
                0int
            }));
            let o = oldest(s, ps);
            if full {
                lemma_count_remove(s, o, y);
            }
            if same_resource(r, y) {
                lemma_count_same_group(s, y, r);
                lemma_count_same_group(kept, y, r);
            } else {
                // `y` is a stored pattern of another resource.
                let w: int = if full {
                    if j < o {
                        j
                    } else {
                        j + 1
                    }
                } else {
                    j
                };
                assert(s[w] == y);
                if full {
                    lemma_oldest(s, ps);
                    let q = choose|q: int| 0 <= q < ps.len() && ps[q] == o;
                    assert(same_resource(s[ps[q]], r));
                }
            }
        }
    }
}

proof fn lemma_oldest_min(s: Seq<FailurePatternView>, ps: Seq<int>)
    requires
        ps.len() >= 1,
    ensures
        forall|k: int|
            0 <= k < ps.len() ==> !stamp_before(s[#[trigger] ps[k]].first_seen, s[oldest(s, ps)].first_seen),
    decreases ps.len(),
{
    if ps.len() > 1 {
        let d = ps.drop_last();
        lemma_oldest_min(s, d);
        assert forall|k: int| 0 <= k < ps.len() implies !stamp_before(
            s[#[trigger] ps[k]].first_seen,
            s[oldest(s, ps)].first_seen,
        ) by {
            if k < d.len() {
                assert(d[k] == ps[k]);
            }
        }
    }
}

proof fn lemma_positions_complete(s: Seq<FailurePatternView>, r: FailurePatternView, j: int)
    requires
        0 <= j < s.len(),
        same_resource(s[j], r),
    ensures
        exists|k: int| 0 <= k < same_resource_positions(s, r).len()
            && #[trigger] same_resource_positions(s, r)[k] == j,
    decreases s.len(),
{
    let rest = same_resource_positions(s.drop_last(), r);
    if j == s.len() - 1 {
        assert(same_resource_positions(s, r)[rest.len() as int] == j);
    } else {
        assert(s.drop_last()[j] == s[j]);
        lemma_positions_complete(s.drop_last(), r, j);
        let k = choose|k: int| 0 <= k < rest.len() && #[trigger] rest[k] == j;
        assert(same_resource_positions(s, r)[k] == j);
    }
}

/// A new failure pattern whose resource already holds the maximum of patterns
/// takes the place of the one first seen earliest: that one is dropped, the
/// others keep their order, and the new pattern is added at the end.
pub proof fn law_full_resource_evicts_oldest(s: Seq<FailurePatternView>, r: FailurePatternView, now: Stamp)
    requires
        key_index::<FailurePatternRecord>(s, FailurePatternRecord::record_key(r)) == -1,
        resource_count(s, r) >= MAX_FAILURE_PATTERNS_PER_RESOURCE,
    ensures
        exists|o: int|
            0 <= o < s.len() && same_resource(s[o], r) && (forall|j: int|
                0 <= j < s.len() && same_resource(#[trigger] s[j], r) ==> !stamp_before(
                    s[j].first_seen,
                    s[o].first_seen,
                )) && recorded_failure(s, r, now).0 == s.remove(o).push(r),
{
    let ps = same_resource_positions(s, r);
    lemma_same_resource_positions(s, r);
    lemma_oldest(s, ps);
    lemma_oldest_min(s, ps);
    let o = oldest(s, ps);
    assert forall|j: int| 0 <= j < s.len() && same_resource(#[trigger] s[j], r) implies !stamp_before(
        s[j].first_seen,
        s[o].first_seen,
    ) by {
        lemma_positions_complete(s, r, j);
        let k = choose|k: int| 0 <= k < ps.len() && #[trigger] ps[k] == j;
        assert(!stamp_before(s[ps[k]].first_seen, s[o].first_seen));
    }
    let w = choose|w: int| 0 <= w < ps.len() && ps[w] == o;
    assert(0 <= ps[w] < s.len() && same_resource(s[ps[w]], r));
}

/// Every listed failure pattern is one stored, of the namespace and tool asked for,
/// of the resource asked for or of none (any when none is asked for), and
/// still live at `now`: the whole seconds from its `last_seen` to `now` do not
/// exceed its TTL, or the store's default TTL when it has none.
pub proof fn law_listed_failure_patterns_are_live(
    s: Seq<FailurePatternView>,
    namespace: Seq<char>,
    tool_name: Seq<char>,
    wanted: Option<Seq<char>>,
    default_ttl: u64,
    now: Stamp,
)
    ensures
        forall|p: FailurePatternView| #[trigger]
            spec_list_failure_patterns(s, namespace, tool_name, wanted, default_ttl, now).contains(p)
                ==> {
                &&& s.contains(p)
                &&& p.namespace == namespace
                &&& p.tool_name == tool_name
                &&& (wanted is None || p.resource_id is None || p.resource_id == wanted)
                &&& elapsed_seconds(now, p.last_seen) <= ttl_as_i64(
                    match p.ttl_seconds {
                        Some(t) => t,
                        None => default_ttl,
                    },
                )
            },
{
    let flags = s.map_values(
        |p: FailurePatternView|
            !expired(now, p.last_seen, p.ttl_seconds, default_ttl) && in_scope(
                namespace,
                tool_name,
                wanted,
                p.namespace,
                p.tool_name,
                p.resource_id,
            ),
    );
    lemma_selected(s, flags);
    assert forall|p: FailurePatternView| #[trigger]
        spec_list_failure_patterns(s, namespace, tool_name, wanted, default_ttl, now).contains(p)
        implies s.contains(p) && !expired(now, p.last_seen, p.ttl_seconds, default_ttl)
        && in_scope(namespace, tool_name, wanted, p.namespace, p.tool_name, p.resource_id) by {
        let i = choose|i: int| 0 <= i < s.len() && flags[i] && #[trigger] s[i] == p;
        assert(flags[i]);
    }
}

/// Every stored failure pattern of the namespace and tool asked for, of the resource
/// asked for or of none (any when none is asked for), and still live at `now`
/// is listed.
pub proof fn law_live_failure_patterns_are_listed(
    s: Seq<FailurePatternView>,
    namespace: Seq<char>,
    tool_name: Seq<char>,
    wanted: Option<Seq<char>>,
    default_ttl: u64,
    now: Stamp,
)
    ensures
        forall|i: int|
            0 <= i < s.len() && (#[trigger] s[i]).namespace == namespace && s[i].tool_name
                == tool_name && (wanted is None || s[i].resource_id is None || s[i].resource_id
                == wanted) && elapsed_seconds(now, s[i].last_seen) <= ttl_as_i64(
                match s[i].ttl_seconds {
                    Some(t) => t,
                    None => default_ttl,
                },
            ) ==> spec_list_failure_patterns(s, namespace, tool_name, wanted, default_ttl, now).contains(s[i]),
{
    let flags = s.map_values(
        |p: FailurePatternView|
            !expired(now, p.last_seen, p.ttl_seconds, default_ttl) && in_scope(
                namespace,
                tool_name,
                wanted,
                p.namespace,
                p.tool_name,
                p.resource_id,
            ),
    );
    lemma_selected(s, flags);
    assert forall|i: int|
        0 <= i < s.len() && (#[trigger] s[i]).namespace == namespace && s[i].tool_name
            == tool_name && (wanted is None || s[i].resource_id is None || s[i].resource_id
            == wanted) && elapsed_seconds(now, s[i].last_seen) <= ttl_as_i64(
            match s[i].ttl_seconds {
                Some(t) => t,
                None => default_ttl,
            },
        ) implies spec_list_failure_patterns(s, namespace, tool_name, wanted, default_ttl, now).contains(s[i]) by {
        assert(flags[i]);
    }
}

/// Every listed constraint is one stored, of the namespace and tool asked for,
/// of the resource asked for or of none (any when none is asked for), and
/// still live at `now`: the whole seconds from its `updated_at` to `now` do not
/// exceed its TTL, or the store's default TTL when it has none.
pub proof fn law_listed_constraints_are_live(
    s: Seq<ConstraintView>,
    namespace: Seq<char>,
    tool_name: Seq<char>,
    wanted: Option<Seq<char>>,
    default_ttl: u64,
    now: Stamp,
)
    ensures
        forall|p: ConstraintView| #[trigger]
            spec_list_constraints(s, namespace, tool_name, wanted, default_ttl, now).contains(p)
                ==> {
                &&& s.contains(p)
                &&& p.namespace == namespace
                &&& p.tool_name == tool_name
                &&& (wanted is None || p.resource_id is None || p.resource_id == wanted)
                &&& elapsed_seconds(now, p.updated_at) <= ttl_as_i64(
                    match p.ttl_seconds {
                        Some(t) => t,
                        None => default_ttl,
                    },
                )
            },
{
    let flags = s.map_values(
        |p: ConstraintView|
            !expired(now, p.updated_at, p.ttl_seconds, default_ttl) && in_scope(
                namespace,
                tool_name,
                wanted,
                p.namespace,
                p.tool_name,
                p.resource_id,
            ),
    );
    lemma_selected(s, flags);
    assert forall|p: ConstraintView| #[trigger]
        spec_list_constraints(s, namespace, tool_name, wanted, default_ttl, now).contains(p)
        implies s.contains(p) && !expired(now, p.updated_at, p.ttl_seconds, default_ttl)
        && in_scope(namespace, tool_name, wanted, p.namespace, p.tool_name, p.resource_id) by {
        let i = choose|i: int| 0 <= i < s.len() && flags[i] && #[trigger] s[i] == p;
        assert(flags[i]);
    }
}

/// Every stored constraint of the namespace and tool asked for, of the resource
/// asked for or of none (any when none is asked for), and still live at `now`
/// is listed.
pub proof fn law_live_constraints_are_listed(
    s: Seq<ConstraintView>,
    namespace: Seq<char>,
    tool_name: Seq<char>,
    wanted: Option<Seq<char>>,
    default_ttl: u64,
    now: Stamp,
)
    ensures
        forall|i: int|
            0 <= i < s.len() && (#[trigger] s[i]).namespace == namespace && s[i].tool_name
                == tool_name && (wanted is None || s[i].resource_id is None || s[i].resource_id
                == wanted) && elapsed_seconds(now, s[i].updated_at) <= ttl_as_i64(
                match s[i].ttl_seconds {
                    Some(t) => t,
                    None => default_ttl,
                },
            ) ==> spec_list_constraints(s, namespace, tool_name, wanted, default_ttl, now).contains(s[i]),
{
    let flags = s.map_values(
        |p: ConstraintView|
            !expired(now, p.updated_at, p.ttl_seconds, default_ttl) && in_scope(
                namespace,
                tool_name,
                wanted,
                p.namespace,
                p.tool_name,
                p.resource_id,
            ),
    );
    lemma_selected(s, flags);
    assert forall|i: int|
        0 <= i < s.len() && (#[trigger] s[i]).namespace == namespace && s[i].tool_name
            == tool_name && (wanted is None || s[i].resource_id is None || s[i].resource_id
            == wanted) && elapsed_seconds(now, s[i].updated_at) <= ttl_as_i64(
            match s[i].ttl_seconds {
                Some(t) => t,
                None => default_ttl,
            },
        ) implies spec_list_constraints(s, namespace, tool_name, wanted, default_ttl, now).contains(s[i]) by {
        assert(flags[i]);
    }
}

/// Every stored observation of the namespace and tool asked for, of the resource
/// asked for or of none (any when none is asked for), and still live at `now`
/// is listed.
pub proof fn law_live_observations_are_listed(
    s: Seq<ObservationView>,
    namespace: Seq<char>,
    tool_name: Seq<char>,
    wanted: Option<Seq<char>>,
    default_ttl: u64,
    now: Stamp,
)
    ensures
        forall|i: int|
            0 <= i < s.len() && (#[trigger] s[i]).namespace == namespace && s[i].tool_name
                == tool_name && (wanted is None || s[i].resource_id is None || s[i].resource_id
                == wanted) && elapsed_seconds(now, s[i].updated_at) <= ttl_as_i64(
                match s[i].ttl_seconds {
                    Some(t) => t,
                    None => default_ttl,
                },
            ) ==> spec_list_observations(s, namespace, tool_name, wanted, default_ttl, now).contains(s[i]),
{
    let flags = s.map_values(
        |p: ObservationView|
            !expired(now, p.updated_at, p.ttl_seconds, default_ttl) && in_scope(
                namespace,
                tool_name,
                wanted,
                p.namespace,
                p.tool_name,
                p.resource_id,
            ),
    );
    lemma_selected(s, flags);
    assert forall|i: int|
        0 <= i < s.len() && (#[trigger] s[i]).namespace == namespace && s[i].tool_name
            == tool_name && (wanted is None || s[i].resource_id is None || s[i].resource_id
            == wanted) && elapsed_seconds(now, s[i].updated_at) <= ttl_as_i64(
            match s[i].ttl_seconds {
                Some(t) => t,
                None => default_ttl,
            },
        ) implies spec_list_observations(s, namespace, tool_name, wanted, default_ttl, now).contains(s[i]) by {
        assert(flags[i]);
    }
}

} // verus!
