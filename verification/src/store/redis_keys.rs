//! The key layout and record decisions of the Redis-backed store: record keys,
//! index set keys, TTLs and the counting of repeated failure patterns.
use vstd::prelude::*;

use crate::formatter::join;
use crate::models::{
    ConstraintRecord, FactRecord, FailurePatternRecord, ObservationRecord, PlaybookRecord, opt_str,
    opt_view, Stamp,
};
use crate::store::memory::seen_again;
use crate::text::{push_str, strs};

verus! {

/// A key segment for an optional value, `*` standing for none.
pub open spec fn segment_view(value: Option<Seq<char>>) -> Seq<char> {
    match value {
        Some(v) => v,
        None => "*"@,
    }
}

/// The key segment of an optional value: the value, or `*`.
pub fn segment(value: Option<&str>) -> (r: &str)
    ensures
        r@ == segment_view(opt_str(value)),
{
    match value {
        Some(v) => v,
        None => "*",
    }
}

/// The parts of a key joined by colons.
pub open spec fn colon_key(parts: Seq<Seq<char>>) -> Seq<char> {
    join(parts, ":"@)
}

/// The parts joined by colons.
pub fn colon_joined(parts: &Vec<&str>) -> (r: String)
    ensures
        r@ == colon_key(strs(parts@)),
{
    let ghost ps = strs(parts@);
    let mut r = String::new();
    let mut i: usize = 0;
    while i < parts.len()
        invariant
            ps == strs(parts@),
            0 <= i <= parts@.len(),
            r@ == join(ps.subrange(0, i as int), ":"@),
        decreases parts.len() - i,
    {
        if i > 0 {
            push_str(&mut r, ":");
        }
        push_str(&mut r, parts[i]);
        proof {
            let q = ps.subrange(0, i + 1);
            assert(q.drop_last() =~= ps.subrange(0, i as int));
            if i == 0 {
                assert(r@ =~= q[0]);
            }
        }
        i = i + 1;
    }
    assert(ps.subrange(0, parts@.len() as int) =~= ps);
    r
}

/// `iterum:<kind>:<namespace>:<tool>:<resource or *>:<id>`.
pub open spec fn scoped_record_key(
    kind: Seq<char>,
    namespace: Seq<char>,
    tool_name: Seq<char>,
    scope: Option<Seq<char>>,
    id: Seq<char>,
) -> Seq<char> {
    colon_key(seq!["iterum"@, kind, namespace, tool_name, segment_view(scope), id])
}

fn scoped_key(kind: &str, namespace: &str, tool_name: &str, scope: &Option<String>, id: &str) -> (r:
    String)
    ensures
        r@ == scoped_record_key(kind@, namespace@, tool_name@, opt_view(*scope), id@),
{
    let seg = segment(match scope {
        Some(s) => Some(s.as_str()),
        None => None,
    });
    let parts = vec!["iterum", kind, namespace, tool_name, seg, id];
    assert(strs(parts@) =~= seq!["iterum"@, kind@, namespace@, tool_name@, seg@, id@]);
    colon_joined(&parts)
}

/// The key of a fact.
pub fn fact_key(r: &FactRecord) -> (k: String)
    ensures
        k@ == scoped_record_key("fact"@, r.namespace@, r.tool_name@, opt_view(r.resource_id), r.id@),
{
    scoped_key("fact", r.namespace.as_str(), r.tool_name.as_str(), &r.resource_id, r.id.as_str())
}

/// The key of a playbook: `iterum:playbook:<namespace>:<tool>:<id>`.
pub fn playbook_key(r: &PlaybookRecord) -> (k: String)
    ensures
        k@ == colon_key(seq!["iterum"@, "playbook"@, r.namespace@, r.tool_name@, r.id@]),
{
    let parts = vec!["iterum", "playbook", r.namespace.as_str(), r.tool_name.as_str(), r.id.as_str()];
    assert(strs(parts@) =~= seq!["iterum"@, "playbook"@, r.namespace@, r.tool_name@, r.id@]);
    colon_joined(&parts)
}

/// The key of an observation.
pub fn observation_key(r: &ObservationRecord) -> (k: String)
    ensures
        k@ == scoped_record_key(
            "observation"@,
            r.namespace@,
            r.tool_name@,
            opt_view(r.resource_id),
            r.id@,
        ),
{
    scoped_key(
        "observation",
        r.namespace.as_str(),
        r.tool_name.as_str(),
        &r.resource_id,
        r.id.as_str(),
    )
}

/// The key of a constraint.
pub fn constraint_key(r: &ConstraintRecord) -> (k: String)
    ensures
        k@ == scoped_record_key(
            "constraint"@,
            r.namespace@,
            r.tool_name@,
            opt_view(r.resource_id),
            r.id@,
        ),
{
    scoped_key(
        "constraint",
        r.namespace.as_str(),
        r.tool_name.as_str(),
        &r.resource_id,
        r.id.as_str(),
    )
}

/// The key of a failure pattern.
pub fn failure_pattern_key(r: &FailurePatternRecord) -> (k: String)
    ensures
        k@ == scoped_record_key(
            "failure_pattern"@,
            r.namespace@,
            r.tool_name@,
            opt_view(r.resource_id),
            r.id@,
        ),
{
    scoped_key(
        "failure_pattern",
        r.namespace.as_str(),
        r.tool_name.as_str(),
        &r.resource_id,
        r.id.as_str(),
    )
}

/// The index set of a kind (`facts`, `playbooks`, `observations`,
/// `constraints`, `failure_patterns`) for a namespace and tool.
pub open spec fn tool_index_key(kind: Seq<char>, namespace: Seq<char>, tool_name: Seq<char>) -> Seq<
    char,
> {
    colon_key(seq!["iterum"@, "index"@, kind, namespace, tool_name])
}

/// The index set of a kind for a namespace, tool and resource (or error
/// family), `*` standing for none.
pub open spec fn scope_index_key(
    kind: Seq<char>,
    namespace: Seq<char>,
    tool_name: Seq<char>,
    scope: Option<Seq<char>>,
) -> Seq<char> {
    colon_key(seq!["iterum"@, "index"@, kind, namespace, tool_name, segment_view(scope)])
}

/// `iterum:index:<kind>:<namespace>:<tool>`.
pub fn tool_index(kind: &str, namespace: &str, tool_name: &str) -> (k: String)
    ensures
        k@ == tool_index_key(kind@, namespace@, tool_name@),
{
    let parts = vec!["iterum", "index", kind, namespace, tool_name];
    assert(strs(parts@) =~= seq!["iterum"@, "index"@, kind@, namespace@, tool_name@]);
    colon_joined(&parts)
}

/// `iterum:index:<kind>:<namespace>:<tool>:<scope or *>`.
pub fn scope_index(kind: &str, namespace: &str, tool_name: &str, scope: Option<&str>) -> (k: String)
    ensures
        k@ == scope_index_key(kind@, namespace@, tool_name@, opt_str(scope)),
{
    let seg = segment(scope);
    let parts = vec!["iterum", "index", kind, namespace, tool_name, seg];
    assert(strs(parts@) =~= seq!["iterum"@, "index"@, kind@, namespace@, tool_name@, seg@]);
    colon_joined(&parts)
}

/// The index sets a listing reads: the tool's, and when a scope is asked for,
/// that scope's and the unscoped one's.
pub open spec fn listing_index_keys(
    kind: Seq<char>,
    namespace: Seq<char>,
    tool_name: Seq<char>,
    scope: Option<Seq<char>>,
) -> Seq<Seq<char>> {
    match scope {
        Some(s) => seq![
            tool_index_key(kind, namespace, tool_name),
            scope_index_key(kind, namespace, tool_name, Some(s)),
            scope_index_key(kind, namespace, tool_name, None),
        ],
        None => seq![tool_index_key(kind, namespace, tool_name)],
    }
}

/// The index sets to read for a listing of a kind.
pub fn listing_indices(kind: &str, namespace: &str, tool_name: &str, scope: Option<&str>) -> (r: Vec<
    String,
>)
    ensures
        r@.map_values(|k: String| k@) == listing_index_keys(
            kind@,
            namespace@,
            tool_name@,
            opt_str(scope),
        ),
{
    let mut r: Vec<String> = Vec::new();
    r.push(tool_index(kind, namespace, tool_name));
    if let Some(s) = scope {
        r.push(scope_index(kind, namespace, tool_name, Some(s)));
        r.push(scope_index(kind, namespace, tool_name, None));
    }
    assert(r@.map_values(|k: String| k@) =~= listing_index_keys(
        kind@,
        namespace@,
        tool_name@,
        opt_str(scope),
    ));
    r
}

/// The index sets a stored record is added to: the tool's and its scope's.
pub fn record_indices(kind: &str, namespace: &str, tool_name: &str, scope: &Option<String>) -> (r: Vec<
    String,
>)
    ensures
        r@.map_values(|k: String| k@) == seq![
            tool_index_key(kind@, namespace@, tool_name@),
            scope_index_key(kind@, namespace@, tool_name@, opt_view(*scope)),
        ],
{
    let mut r: Vec<String> = Vec::new();
    r.push(tool_index(kind, namespace, tool_name));
    r.push(
        scope_index(
            kind,
            namespace,
            tool_name,
            match scope {
                Some(s) => Some(s.as_str()),
                None => None,
            },
        ),
    );
    assert(r@.map_values(|k: String| k@) =~= seq![
        tool_index_key(kind@, namespace@, tool_name@),
        scope_index_key(kind@, namespace@, tool_name@, opt_view(*scope)),
    ]);
    r
}

/// The TTL a record is written with: its own, or the store's.
pub fn effective_ttl(ttl: Option<u64>, default_ttl: u64) -> (r: u64)
    ensures
        r == match ttl {
            Some(t) => t,
            None => default_ttl,
        },
{
    match ttl {
        Some(t) => t,
        None => default_ttl,
    }
}

/// The failure pattern written for `record` when `existing` is what the store
/// held under its key (if it could be read): that one counted once more and
/// re-stamped, or else `record`.
pub fn next_failure_pattern(
    existing: Option<FailurePatternRecord>,
    record: FailurePatternRecord,
    now: Stamp,
) -> (r: FailurePatternRecord)
    requires
        existing matches Some(e) ==> e.occurrence_count < u32::MAX,
    ensures
        r@ == match existing {
            Some(e) => seen_again(e@, now),
            None => record@,
        },
{
    match existing {
        Some(e) => {
            let mut e = e;
            e.occurrence_count = e.occurrence_count + 1;
            e.last_seen = now;
            e
        },
        None => record,
    }
}

} // verus!
