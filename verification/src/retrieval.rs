//! Context retrieval: infer the error family, list what the store holds for
//! the tool and resource, rank each kind and render the prompt context.
use vstd::prelude::*;

use crate::formatter::{all_bullets, format_prompt_context, spec_prompt_context};
use crate::models::{
    ConstraintRecord, ConstraintView, ContextRetrieveRequest, ContextRetrieveResponse, FactRecord,
    FactView, FailurePatternRecord, FailurePatternView, ObservationRecord, ObservationView,
    PlaybookRecord, PlaybookView, Stamp, clone_opt, opt_str, opt_view, utc_now, views,
};
use crate::ranking::{
    fact_key, is_candidate, key_ge, law_ranked, ranked, seen_before, rank_constraints, rank_facts, rank_failure_patterns, rank_observations, rank_playbooks,
    spec_rank_constraints, spec_rank_facts, spec_rank_failure_patterns, spec_rank_observations,
    spec_rank_playbooks,
};
use crate::store::memory::{
    InMemoryStore, StoreView, StoredRecord, in_scope, law_store_replaces, law_stored_fact_is_listed,
    lemma_selected, lemma_selected_unique, selected, unique_keys, upserted, spec_list_constraints, spec_list_facts, spec_list_failure_patterns,
    spec_list_observations, spec_list_playbooks,
};
use crate::text::{
    contains_any, contains_text, has_any_substring, has_substring, lemma_any_of_two, lowercase,
    owned, spec_lowercase, strs,
};

verus! {

// ---------------------------------------------------------------------------
// Error families
// ---------------------------------------------------------------------------

/// The error family an error text belongs to, judged on its lowercase form.
pub open spec fn spec_error_family(text: Seq<char>) -> Option<Seq<char>> {
    let low = spec_lowercase(text);
    if has_any_substring(low, seq!["no such column"@, "unknown column"@]) {
        Some("unknown_column"@)
    } else if has_substring(low, "no such table"@) {
        Some("unknown_table"@)
    } else if has_any_substring(low, seq!["not found"@, "404"@]) {
        Some("not_found"@)
    } else if has_any_substring(low, seq!["invalid url"@, "not a url"@]) {
        Some("invalid_url"@)
    } else if has_substring(low, "missing required"@) {
        Some("missing_required_field"@)
    } else {
        None
    }
}

/// The error family of an optional error text.
pub open spec fn spec_infer_error_family(error_text: Option<Seq<char>>) -> Option<Seq<char>> {
    match error_text {
        Some(t) => spec_error_family(t),
        None => None,
    }
}

/// The error family of an error text: `unknown_column`, `unknown_table`,
/// `not_found`, `invalid_url` or `missing_required_field`; none for no text.
pub fn infer_error_family(error_text: Option<&str>) -> (r: Option<String>)
    ensures
        opt_view(r) == spec_infer_error_family(opt_str(error_text)),
{
    let text = match error_text {
        Some(t) => t,
        None => return None,
    };
    let lower = lowercase(text);
    let column = vec!["no such column", "unknown column"];
    assert(strs(column@) =~= seq!["no such column"@, "unknown column"@]);
    if contains_any(lower.as_str(), &column) {
        return Some(owned("unknown_column"));
    }
    if contains_text(lower.as_str(), "no such table") {
        return Some(owned("unknown_table"));
    }
    let missing = vec!["not found", "404"];
    assert(strs(missing@) =~= seq!["not found"@, "404"@]);
    if contains_any(lower.as_str(), &missing) {
        return Some(owned("not_found"));
    }
    let url = vec!["invalid url", "not a url"];
    assert(strs(url@) =~= seq!["invalid url"@, "not a url"@]);
    if contains_any(lower.as_str(), &url) {
        return Some(owned("invalid_url"));
    }
    if contains_text(lower.as_str(), "missing required") {
        return Some(owned("missing_required_field"));
    }
    None
}

/// How an error text is classified, on its lowercase form: one mentioning "no
/// such column" or "unknown column" is `unknown_column`; else one mentioning
/// "no such table" is `unknown_table`; else one mentioning "not found" or
/// "404" is `not_found`; else "invalid url" or "not a url" makes it
/// `invalid_url`; else "missing required" makes it `missing_required_field`;
/// a text mentioning none of these, or no text, has no family.
pub proof fn law_error_family(text: Seq<char>)
    ensures
        ({
            let low = spec_lowercase(text);
            let family = spec_infer_error_family(Some(text));
            let column = has_substring(low, "no such column"@) || has_substring(
                low,
                "unknown column"@,
            );
            let table = has_substring(low, "no such table"@);
            let missing = has_substring(low, "not found"@) || has_substring(low, "404"@);
            let url = has_substring(low, "invalid url"@) || has_substring(low, "not a url"@);
            let required = has_substring(low, "missing required"@);
            &&& column ==> family == Some("unknown_column"@)
            &&& (!column && table) ==> family == Some("unknown_table"@)
            &&& (!column && !table && missing) ==> family == Some("not_found"@)
            &&& (!column && !table && !missing && url) ==> family == Some("invalid_url"@)
            &&& (!column && !table && !missing && !url && required) ==> family == Some(
                "missing_required_field"@,
            )
            &&& (!column && !table && !missing && !url && !required) ==> family is None
            &&& spec_infer_error_family(None) is None
        }),
{
    let low = spec_lowercase(text);
    lemma_any_of_two(low, "no such column"@, "unknown column"@);
    lemma_any_of_two(low, "not found"@, "404"@);
    lemma_any_of_two(low, "invalid url"@, "not a url"@);
}

// ---------------------------------------------------------------------------
// Views of requests and responses
// ---------------------------------------------------------------------------

pub struct RequestView {
    pub namespace: Seq<char>,
    pub user_id: Option<Seq<char>>,
    pub tool_name: Seq<char>,
    pub resource_id: Option<Seq<char>>,
    pub task_type: Option<Seq<char>>,
    pub error_text: Option<Seq<char>>,
    pub query: Option<Seq<char>>,
}

impl View for ContextRetrieveRequest {
    type V = RequestView;

    open spec fn view(&self) -> RequestView {
        RequestView {
            namespace: self.namespace@,
            user_id: opt_view(self.user_id),
            tool_name: self.tool_name@,
            resource_id: opt_view(self.resource_id),
            task_type: opt_view(self.task_type),
            error_text: opt_view(self.error_text),
            query: opt_view(self.query),
        }
    }
}

#[verifier::ext_equal]
pub struct ResponseView {
    pub namespace: Seq<char>,
    pub tool_name: Seq<char>,
    pub resource_id: Option<Seq<char>>,
    pub matched_error_family: Option<Seq<char>>,
    pub facts: Seq<FactView>,
    pub playbooks: Seq<PlaybookView>,
    pub observations: Seq<ObservationView>,
    pub constraints: Seq<ConstraintView>,
    pub failure_patterns: Seq<FailurePatternView>,
    pub prompt_context: Seq<char>,
}

impl View for ContextRetrieveResponse {
    type V = ResponseView;

    open spec fn view(&self) -> ResponseView {
        ResponseView {
            namespace: self.namespace@,
            tool_name: self.tool_name@,
            resource_id: opt_view(self.resource_id),
            matched_error_family: opt_view(self.matched_error_family),
            facts: views(self.facts@),
            playbooks: views(self.playbooks@),
            observations: views(self.observations@),
            constraints: views(self.constraints@),
            failure_patterns: views(self.failure_patterns@),
            prompt_context: self.prompt_context@,
        }
    }
}

// ---------------------------------------------------------------------------
// Assembling a response
// ---------------------------------------------------------------------------

/// The response for a request, given the records listed for it and the
/// number of items kept per kind.
pub open spec fn spec_assemble(
    request: RequestView,
    facts: Seq<FactView>,
    playbooks: Seq<PlaybookView>,
    observations: Seq<ObservationView>,
    constraints: Seq<ConstraintView>,
    failure_patterns: Seq<FailurePatternView>,
    max_items: nat,
) -> ResponseView {
    let family = spec_infer_error_family(request.error_text);
    let f = spec_rank_facts(facts, request.resource_id, max_items);
    let p = spec_rank_playbooks(playbooks, family, max_items);
    let o = spec_rank_observations(observations, request.resource_id, max_items);
    let c = spec_rank_constraints(constraints, request.resource_id, max_items);
    let x = spec_rank_failure_patterns(failure_patterns, request.resource_id, max_items);
    ResponseView {
        namespace: request.namespace,
        tool_name: request.tool_name,
        resource_id: request.resource_id,
        matched_error_family: family,
        facts: f,
        playbooks: p,
        observations: o,
        constraints: c,
        failure_patterns: x,
        prompt_context: spec_prompt_context(all_bullets(f, p, o, c, x)),
    }
}

/// Ranks the listed records of each kind, keeps `max_items` of each and
/// renders the prompt context.
pub fn assemble_context(
    request: &ContextRetrieveRequest,
    facts: Vec<FactRecord>,
    playbooks: Vec<PlaybookRecord>,
    observations: Vec<ObservationRecord>,
    constraints: Vec<ConstraintRecord>,
    failure_patterns: Vec<FailurePatternRecord>,
    max_items: usize,
) -> (r: ContextRetrieveResponse)
    ensures
        r@ == spec_assemble(
            request@,
            views(facts@),
            views(playbooks@),
            views(observations@),
            views(constraints@),
            views(failure_patterns@),
            max_items as nat,
        ),
{
    let error_family = infer_error_family(as_str_opt(&request.error_text));
    let ranked_facts = rank_facts(facts, request, max_items);
    let ranked_playbooks = rank_playbooks(playbooks, as_str_opt(&error_family), max_items);
    let ranked_observations = rank_observations(observations, request, max_items);
    let ranked_constraints = rank_constraints(constraints, request, max_items);
    let ranked_failure_patterns = rank_failure_patterns(failure_patterns, request, max_items);
    let prompt_context = format_prompt_context(
        &ranked_facts,
        &ranked_playbooks,
        &ranked_observations,
        &ranked_constraints,
        &ranked_failure_patterns,
    );
    let r = ContextRetrieveResponse {
        namespace: owned(request.namespace.as_str()),
        tool_name: owned(request.tool_name.as_str()),
        resource_id: clone_opt(&request.resource_id),
        matched_error_family: error_family,
        facts: ranked_facts,
        playbooks: ranked_playbooks,
        observations: ranked_observations,
        constraints: ranked_constraints,
        failure_patterns: ranked_failure_patterns,
        prompt_context,
    };
    assert(r@ =~= spec_assemble(
        request@,
        views(facts@),
        views(playbooks@),
        views(observations@),
        views(constraints@),
        views(failure_patterns@),
        max_items as nat,
    ));
    r
}

/// The string slice of an optional string (`as_deref`).
pub fn as_str_opt(o: &Option<String>) -> (r: Option<&str>)
    ensures
        opt_str(r) == opt_view(*o),
{
    match o {
        Some(s) => Some(s.as_str()),
        None => None,
    }
}

// ---------------------------------------------------------------------------
// The retriever
// ---------------------------------------------------------------------------

/// A store with the number of items kept per kind in a response.
pub struct ContextRetriever {
    store: InMemoryStore,
    max_items: usize,
}

pub struct RetrieverView {
    pub store: StoreView,
    pub max_items: usize,
}

impl View for ContextRetriever {
    type V = RetrieverView;

    closed spec fn view(&self) -> RetrieverView {
        RetrieverView { store: self.store@, max_items: self.max_items }
    }
}

/// The response to a request at time `now` from a store.
pub open spec fn spec_retrieve(
    store: StoreView,
    max_items: nat,
    request: RequestView,
    now: Stamp,
) -> ResponseView {
    let family = spec_infer_error_family(request.error_text);
    spec_assemble(
        request,
        spec_list_facts(store.facts, request.namespace, request.tool_name, request.resource_id),
        spec_list_playbooks(store.playbooks, request.namespace, request.tool_name, family),
        spec_list_observations(
            store.observations,
            request.namespace,
            request.tool_name,
            request.resource_id,
            store.default_ttl,
            now,
        ),
        spec_list_constraints(
            store.constraints,
            request.namespace,
            request.tool_name,
            request.resource_id,
            store.default_ttl,
            now,
        ),
        spec_list_failure_patterns(
            store.failure_patterns,
            request.namespace,
            request.tool_name,
            request.resource_id,
            store.default_ttl,
            now,
        ),
        max_items,
    )
}

impl ContextRetriever {
    /// A retriever over a store, keeping `max_items` items per kind.
    pub fn new(store: InMemoryStore, max_items: usize) -> (r: Self)
        ensures
            r@ == (RetrieverView { store: store@, max_items }),
    {
        ContextRetriever { store, max_items }
    }

    /// The store.
    pub fn store(&self) -> (r: &InMemoryStore)
        ensures
            r@ == self@.store,
    {
        &self.store
    }

    /// The store, for writing.
    pub fn store_mut(&mut self) -> (r: &mut InMemoryStore)
        ensures
            r@ == old(self)@.store,
            final(self)@ == (RetrieverView { store: final(r)@, max_items: old(self)@.max_items }),
    {
        &mut self.store
    }

    /// The context for a request at time `now`.
    pub fn retrieve_at(&self, request: &ContextRetrieveRequest, now: Stamp) -> (r:
        ContextRetrieveResponse)
        ensures
            r@ == spec_retrieve(self@.store, self@.max_items as nat, request@, now),
    {
        let error_family = infer_error_family(as_str_opt(&request.error_text));
        let rid = as_str_opt(&request.resource_id);
        let ns = request.namespace.as_str();
        let tool = request.tool_name.as_str();
        let facts = self.store.list_facts(ns, tool, rid);
        let playbooks = self.store.list_playbooks(ns, tool, as_str_opt(&error_family));
        let observations = self.store.list_observations_at(ns, tool, rid, now);
        let constraints = self.store.list_constraints_at(ns, tool, rid, now);
        let failure_patterns = self.store.list_failure_patterns_at(ns, tool, rid, now);
        assemble_context(
            request,
            facts,
            playbooks,
            observations,
            constraints,
            failure_patterns,
            self.max_items,
        )
    }

    /// The context for a request, now.
    pub fn retrieve(&self, request: &ContextRetrieveRequest) -> (r: ContextRetrieveResponse)
        ensures
            exists|now: Stamp| r@ == spec_retrieve(self@.store, self@.max_items as nat, request@, now),
    {
        let now = utc_now();
        self.retrieve_at(request, now)
    }
}

// ---------------------------------------------------------------------------
// What a retrieval gives back of what was stored
// ---------------------------------------------------------------------------

/// A fact just stored is retrieved for a request on its namespace and tool
/// (asking for no resource, for its resource, or it has none), unless the
/// response already holds `max_items` facts, each scoring at least as high.
pub proof fn law_stored_fact_is_retrieved(
    store: StoreView,
    rec: FactView,
    request: RequestView,
    max_items: nat,
    now: Stamp,
)
    requires
        unique_keys::<FactRecord>(store.facts),
        request.namespace == rec.namespace,
        request.tool_name == rec.tool_name,
        request.resource_id is None || request.resource_id == rec.resource_id
            || rec.resource_id is None,
    ensures
        ({
            let after = StoreView { facts: upserted::<FactRecord>(store.facts, rec), ..store };
            let got = spec_retrieve(after, max_items, request, now).facts;
            ||| got.contains(rec)
            ||| (got.len() == max_items && forall|k: int|
                0 <= k < got.len() ==> key_ge(
                    fact_key(#[trigger] got[k], request.resource_id),
                    fact_key(rec, request.resource_id),
                ))
        }),
{
    let u = upserted::<FactRecord>(store.facts, rec);
    let rid = request.resource_id;
    law_stored_fact_is_listed(store.facts, rec, rid);
    law_store_replaces::<FactRecord>(store.facts, rec);
    let flags = u.map_values(
        |f: FactView|
            in_scope(request.namespace, request.tool_name, rid, f.namespace, f.tool_name, f.resource_id),
    );
    let l = spec_list_facts(u, request.namespace, request.tool_name, rid);
    assert(l == selected(u, flags));
    lemma_selected_unique::<FactRecord>(u, flags);
    lemma_selected(u, flags);
    let ids = l.map_values(|f: FactView| f.id);
    let keep = l.map_values(|f: FactView| true);
    let keys = l.map_values(|f: FactView| fact_key(f, rid));
    law_ranked(ids, keep, keys, max_items);
    let w = choose|w: int| 0 <= w < l.len() && l[w] == rec;
    // Listed facts share the namespace and tool, so their ids differ.
    assert(!seen_before(ids, w)) by {
        if seen_before(ids, w) {
            let j = choose|j: int| 0 <= j < w && #[trigger] ids[j] == ids[w];
            assert(l.contains(l[j]));
            let a = choose|a: int| 0 <= a < u.len() && flags[a] && #[trigger] u[a] == l[j];
            assert(flags[a]);
            assert(FactRecord::record_key(l[j]) == FactRecord::record_key(l[w]));
        }
    }
    assert(is_candidate(ids, keep, w));
    let r = ranked(ids, keep, keys, max_items);
    let got = r.map_values(|i: int| l[i]);
    if r.contains(w) {
        let q = choose|q: int| 0 <= q < r.len() && r[q] == w;
        assert(got[q] == rec);
    } else {
        assert forall|k: int| 0 <= k < got.len() implies key_ge(
            fact_key(#[trigger] got[k], rid),
            fact_key(rec, rid),
        ) by {
            assert(key_ge(keys[r[k]], keys[w]));
            assert(is_candidate(ids, keep, r[k]));
        }
    }
}

} // verus!
