use chrono::{DateTime, NaiveDate, Utc};
use iterum::config::Config;
use sha2::Digest;
use iterum::events::{can_store_extracted, store_extracted};
use iterum::extractors::cli::{detect_cli_error, CliExtractor};
use iterum::extractors::sqlite::{detect_sqlite_error, extract_schema_table, SqliteExtractor};
use iterum::extractors::web::{detect_web_error, WebExtractor};
use iterum::extractors::{Extracted, Extractor, ExtractorRegistry};
use iterum::formatter::format_prompt_context;
use iterum::ids::{stable_identifier, PayloadField, PayloadValue};
use iterum::models::{
    Confidence, Stamp,
    default_confidence, default_namespace, default_one, ConstraintRecord, ContextRetrieveRequest,
    FactRecord, FailurePatternRecord, ObservationRecord, PlaybookRecord, StoreFactRequest,
    StoreObservationRequest, StorePlaybookRequest, ToolResultEvent,
};
use iterum::ranking::{rank_facts, rank_failure_patterns, rank_playbooks};
use iterum::retrieval::{infer_error_family, ContextRetriever};
use iterum::store::memory::InMemoryStore;
use iterum::store::redis_keys::{
    fact_key, listing_indices, next_failure_pattern, playbook_key, segment,
};
use iterum::text::{decimal_text, find_line, lines_of, trimmed};

// ---------------------------------------------------------------------------
// Helpers
// ---------------------------------------------------------------------------

fn event(command: &str, resource_id: Option<&str>, stdout: Option<&str>, stderr: Option<&str>, is_error: bool) -> ToolResultEvent {
    ToolResultEvent {
        namespace: "default".into(),
        tool_name: "bash".into(),
        command: Some(command.into()),
        resource_id: resource_id.map(|s| s.to_string()),
        stdout: stdout.map(|s| s.to_string()),
        stderr: stderr.map(|s| s.to_string()),
        is_error,
        agent_id: None,
        session_id: None,
    }
}

fn request(namespace: &str, tool: &str, resource_id: Option<&str>, error_text: Option<&str>) -> ContextRetrieveRequest {
    ContextRetrieveRequest {
        namespace: namespace.into(),
        user_id: None,
        tool_name: tool.into(),
        resource_id: resource_id.map(|s| s.to_string()),
        task_type: None,
        error_text: error_text.map(|s| s.to_string()),
        query: None,
    }
}

/// A confidence given by its rank (the confidence times 1000).
fn rank_conf(rank: u64) -> Confidence {
    Confidence { literal: serde_json::to_string(&(rank as f64 / 1000.0)).unwrap(), rank }
}

/// A time given in microseconds since the epoch.
fn micros(m: i64) -> Stamp {
    Stamp { secs: m.div_euclid(1_000_000), nanos: (m.rem_euclid(1_000_000) * 1000) as u32 }
}

fn fact(id: &str, resource_id: Option<&str>, rank: u64, updated_micros: i64) -> FactRecord {
    FactRecord {
        id: id.into(),
        namespace: "default".into(),
        tool_name: "sqlite3".into(),
        resource_id: resource_id.map(|s| s.to_string()),
        topic: "schema".into(),
        title: format!("title {id}"),
        content: format!("content {id}"),
        confidence: rank_conf(rank),
        updated_at: micros(updated_micros),
    }
}

fn failure(id: &str, resource_id: Option<&str>, count: u32, first_seen: i64) -> FailurePatternRecord {
    FailurePatternRecord {
        id: id.into(),
        namespace: "default".into(),
        tool_name: "sqlite3".into(),
        resource_id: resource_id.map(|s| s.to_string()),
        error_family: "unknown_column".into(),
        pattern: format!("pattern {id}"),
        occurrence_count: count,
        first_seen: micros(first_seen),
        last_seen: micros(first_seen),
        ttl_seconds: None,
    }
}

fn text_payload(pairs: &[(&str, &str)]) -> Vec<PayloadField> {
    pairs
        .iter()
        .map(|(k, v)| PayloadField { key: k.to_string(), value: PayloadValue::Text(v.to_string()) })
        .collect()
}

// ---------------------------------------------------------------------------
// Tests carried over
// ---------------------------------------------------------------------------

#[test]
fn test_extract_schema_table() {
    assert_eq!(
        extract_schema_table("sqlite3 db.db '.schema users'"),
        Some("users".into())
    );
    assert_eq!(
        extract_schema_table("sqlite3 db.db 'PRAGMA table_info(orders)'"),
        Some("orders".into())
    );
    assert_eq!(extract_schema_table("sqlite3 db.db '.tables'"), None);
}

#[test]
fn test_can_handle() {
    let ext = SqliteExtractor;
    let event = ToolResultEvent {
        namespace: "default".into(),
        tool_name: "bash".into(),
        command: Some("sqlite3 ~/db.db '.tables'".into()),
        resource_id: None,
        stdout: None,
        stderr: None,
        is_error: false,
        agent_id: None,
        session_id: None,
    };
    assert!(ext.can_handle(&event));

    let event2 = ToolResultEvent {
        command: Some("ls -la".into()),
        resource_id: None,
        ..event
    };
    assert!(!ext.can_handle(&event2));
}

#[test]
fn test_extract_tables() {
    let ext = SqliteExtractor;
    let event = ToolResultEvent {
        namespace: "default".into(),
        tool_name: "bash".into(),
        command: Some("sqlite3 ~/db.db '.tables'".into()),
        resource_id: Some("sqlite:~/db.db".into()),
        stdout: Some("users  orders  products".into()),
        stderr: None,
        is_error: false,
        agent_id: None,
        session_id: None,
    };
    let result = ext.extract(&event);
    assert_eq!(result.facts.len(), 1);
    assert!(result.facts[0].content.contains("users"));
}

#[test]
fn test_extract_error() {
    let ext = SqliteExtractor;
    let event = ToolResultEvent {
        namespace: "default".into(),
        tool_name: "bash".into(),
        command: Some("sqlite3 ~/db.db 'SELECT bad FROM t'".into()),
        resource_id: Some("sqlite:~/db.db".into()),
        stdout: None,
        stderr: Some("Error: no such column: bad".into()),
        is_error: true,
        agent_id: None,
        session_id: None,
    };
    let result = ext.extract(&event);
    assert!(!result.failure_patterns.is_empty());
    assert!(!result.constraints.is_empty());
    assert_eq!(result.failure_patterns[0].error_family, "unknown_column");
}

#[test]
fn test_stable_identifier_deterministic() {
    let payload = text_payload(&[("tool_name", "sqlite3"), ("topic", "schema")]);
    let id1 = stable_identifier("fact", &payload);
    let id2 = stable_identifier("fact", &payload);
    assert_eq!(id1, id2);
    assert!(id1.starts_with("fact_"));
    assert_eq!(id1.len(), 5 + 12); // "fact_" + 12 hex chars
}

#[test]
fn test_infer_error_family() {
    assert_eq!(
        infer_error_family(Some("Error: no such column: foo")),
        Some("unknown_column".into())
    );
    assert_eq!(
        infer_error_family(Some("no such table: bar")),
        Some("unknown_table".into())
    );
    assert_eq!(
        infer_error_family(Some("HTTP 404 Not Found")),
        Some("not_found".into())
    );
    assert_eq!(
        infer_error_family(Some("invalid url provided")),
        Some("invalid_url".into())
    );
    assert_eq!(
        infer_error_family(Some("missing required field: name")),
        Some("missing_required_field".into())
    );
    assert_eq!(infer_error_family(Some("everything is fine")), None);
    assert_eq!(infer_error_family(None), None);
}

// ---------------------------------------------------------------------------
// Service scenarios, run against the library directly
// ---------------------------------------------------------------------------

#[test]
fn store_and_retrieve_fact() {
    let mut retriever = ContextRetriever::new(InMemoryStore::new(604800), 3);
    let record = StoreFactRequest {
        id: None,
        namespace: "default".into(),
        tool_name: "sqlite3".into(),
        resource_id: Some("sqlite:~/test.db".into()),
        topic: "schema:users".into(),
        title: "Schema for users".into(),
        content: "CREATE TABLE users (id INTEGER, name TEXT)".into(),
        confidence: rank_conf(950),
    }
    .into_record();
    let stored = retriever.store_mut().put_fact(record);
    assert!(stored.id.starts_with("fact_"));
    assert_eq!(stored.id, "fact_a0f646d33ec6");

    let ctx = retriever.retrieve(&request("default", "sqlite3", Some("sqlite:~/test.db"), None));
    assert_eq!(ctx.facts.len(), 1);
    assert!(ctx.prompt_context.contains("Schema for users"));
}

fn ingest(store: &mut InMemoryStore, event: &ToolResultEvent) -> Vec<(String, String)> {
    let extracted = ExtractorRegistry::default().extract(event);
    assert!(can_store_extracted(store, &extracted));
    store_extracted(store, extracted)
        .stored
        .into_iter()
        .map(|i| (i.record_type, i.id))
        .collect()
}

#[test]
fn tool_result_event_extracts_schema() {
    let mut retriever = ContextRetriever::new(InMemoryStore::new(604800), 3);
    let e = event(
        "sqlite3 ~/test.db '.schema orders'",
        Some("sqlite:~/test.db"),
        Some("CREATE TABLE orders (id INTEGER PRIMARY KEY, amount REAL, created_at TEXT);"),
        None,
        false,
    );
    let stored = ingest(retriever.store_mut(), &e);
    assert!(stored.iter().any(|(t, _)| t == "fact"), "should extract a fact from .schema output");
    let ctx = retriever.retrieve(&request("default", "sqlite3", Some("sqlite:~/test.db"), None));
    assert!(!ctx.facts.is_empty());
    assert_eq!(ctx.facts[0].topic, "schema:orders");
    assert_eq!(ctx.facts[0].title, "Schema for orders");
}

#[test]
fn tool_result_event_detects_error_and_creates_constraint() {
    let mut store = InMemoryStore::new(604800);
    let e = event(
        "sqlite3 ~/test.db 'SELECT bad_col FROM users'",
        Some("sqlite:~/test.db"),
        Some(""),
        Some("Error: no such column: bad_col"),
        true,
    );
    let stored = ingest(&mut store, &e);
    assert!(stored.iter().any(|(t, _)| t == "constraint"), "should create a constraint from column error");
    assert!(stored.iter().any(|(t, _)| t == "failure_pattern"), "should create a failure pattern");
}

#[test]
fn failure_pattern_increments_on_repeat() {
    let mut store = InMemoryStore::new(604800);
    let e = event(
        "sqlite3 ~/test.db 'SELECT nope FROM t'",
        Some("sqlite:~/test.db"),
        Some(""),
        Some("Error: no such column: nope"),
        true,
    );
    ingest(&mut store, &e);
    ingest(&mut store, &e);
    let patterns = store.list_failure_patterns("default", "sqlite3", Some("sqlite:~/test.db"));
    assert!(!patterns.is_empty());
    assert_eq!(patterns[0].occurrence_count, 2, "occurrence_count should be 2 after two events");
}

#[test]
fn debug_constraints_endpoint() {
    let mut store = InMemoryStore::new(604800);
    let e = event(
        "sqlite3 ~/test.db 'SELECT missing FROM t'",
        Some("sqlite:~/test.db"),
        None,
        Some("Error: no such column: missing"),
        true,
    );
    ingest(&mut store, &e);
    let constraints = store.list_constraints("default", "sqlite3", None);
    assert!(!constraints.is_empty());
}

// ---------------------------------------------------------------------------
// Identifiers
// ---------------------------------------------------------------------------

#[test]
fn stable_identifier_matches_sha256_of_sorted_json() {
    // {"tool_name":"sqlite3","topic":"schema"}
    let payload = text_payload(&[("topic", "schema"), ("tool_name", "sqlite3")]);
    assert_eq!(stable_identifier("fact", &payload), "fact_db3600c367f7");
}

#[test]
fn stable_identifier_depends_on_payload() {
    let a = stable_identifier("fp", &text_payload(&[("pattern", "a")]));
    let b = stable_identifier("fp", &text_payload(&[("pattern", "b")]));
    assert_ne!(a, b);
    assert!(a.starts_with("fp_") && a.len() == 15);
}

#[test]
fn extracted_failure_pattern_id_is_stable() {
    let e = event(
        "sqlite3 ~/db.db 'SELECT bad FROM t'",
        Some("sqlite:~/db.db"),
        None,
        Some("Error: no such column: bad"),
        true,
    );
    let result = SqliteExtractor.extract(&e);
    assert_eq!(result.failure_patterns[0].id, "fp_8986e3a02332");
    assert_eq!(result.failure_patterns[0].pattern, "Error: no such column: bad");
    assert_eq!(result.failure_patterns[0].occurrence_count, 1);
    assert_eq!(result.failure_patterns[0].ttl_seconds, Some(86400));
    assert_eq!(result.constraints[0].title, "Invalid reference: unknown_column");
    assert_eq!(result.constraints[0].confidence.rank, 900);
}

#[test]
fn into_record_keeps_given_id() {
    let r = StorePlaybookRequest {
        id: Some("sqlite_unknown_column_inspect_schema".into()),
        namespace: "default".into(),
        tool_name: "sqlite3".into(),
        error_family: Some("unknown_column".into()),
        title: "Inspect schema before retrying".into(),
        steps: vec!["Run .tables".into(), "Run .schema".into()],
        confidence: rank_conf(950),
    }
    .into_record();
    assert_eq!(r.id, "sqlite_unknown_column_inspect_schema");
    assert_eq!(r.steps.len(), 2);
    assert!(r.updated_at.secs > 0);

    let o = StoreObservationRequest {
        id: None,
        namespace: "default".into(),
        tool_name: "sqlite3".into(),
        resource_id: None,
        topic: "empty_state".into(),
        content: "runs=0".into(),
        confidence: rank_conf(900),
        ttl_seconds: Some(86400),
    }
    .into_record();
    assert!(o.id.starts_with("observation_") && o.id.len() == "observation_".len() + 12);
    assert_eq!(o.ttl_seconds, Some(86400));
}

// ---------------------------------------------------------------------------
// Extractors
// ---------------------------------------------------------------------------

#[test]
fn sqlite_error_families() {
    assert_eq!(detect_sqlite_error("Error: no such column: x"), Some("unknown_column".into()));
    assert_eq!(detect_sqlite_error("Unknown column 'x'"), Some("unknown_column".into()));
    assert_eq!(detect_sqlite_error("Error: no such table: t"), Some("unknown_table".into()));
    assert_eq!(detect_sqlite_error("Parse error: near \"FROM\": syntax error"), Some("syntax_error".into()));
    assert_eq!(detect_sqlite_error("all good"), None);
}

#[test]
fn sqlite_syntax_error_has_no_constraint() {
    let e = event("sqlite3 db 'SELEC 1'", None, None, Some("Parse error: near \"SELEC\": syntax error"), true);
    let r = SqliteExtractor.extract(&e);
    assert_eq!(r.failure_patterns.len(), 1);
    assert!(r.constraints.is_empty());
    assert_eq!(r.failure_patterns[0].error_family, "syntax_error");
}

#[test]
fn sqlite_failed_command_yields_no_fact() {
    let e = event("sqlite3 db '.tables'", None, Some("users"), None, true);
    assert!(SqliteExtractor.extract(&e).facts.is_empty());
    let ok = event("sqlite3 db '.tables'", None, Some("users"), None, false);
    let facts = SqliteExtractor.extract(&ok).facts;
    assert_eq!(facts[0].title, "Known tables for unknown");
    assert_eq!(facts[0].confidence.rank, 950);
}

#[test]
fn sqlite_resource_prefix_is_handled() {
    let e = event("ls", Some("sqlite:/tmp/x.db"), None, None, false);
    assert!(SqliteExtractor.can_handle(&e));
}

#[test]
fn web_errors() {
    assert_eq!(detect_web_error("HTTP/1.1 404 Not Found"), Some("not_found".into()));
    assert_eq!(detect_web_error("curl: (3) URL using bad/illegal format or Malformed input"), Some("invalid_url".into()));
    assert_eq!(detect_web_error("200 OK"), None);
    let e = event("curl htp:/x", None, None, Some("curl: (3) malformed URL"), true);
    assert!(WebExtractor.can_handle(&e));
    let r = WebExtractor.extract(&e);
    assert_eq!(r.constraints.len(), 1);
    assert_eq!(r.constraints[0].topic, "invalid_url");
    assert_eq!(r.constraints[0].content, "HTTP error");
    assert_eq!(r.failure_patterns[0].pattern, "HTTP error");
}

#[test]
fn web_not_found_quotes_line() {
    let e = event("wget http://x/y", None, Some("  HTTP request sent\n  ERROR 404: Not Found.  \n"), None, true);
    let r = WebExtractor.extract(&e);
    assert_eq!(r.failure_patterns[0].error_family, "not_found");
    assert_eq!(r.failure_patterns[0].pattern, "ERROR 404: Not Found.");
    assert!(r.constraints.is_empty());
}

#[test]
fn cli_errors() {
    assert_eq!(
        detect_cli_error("usage: foo\nfoo: unknown option --bar\n"),
        Some(("unknown_flag".into(), "foo: unknown option --bar".into()))
    );
    assert_eq!(
        detect_cli_error("option --out requires a value"),
        Some(("missing_arg".into(), "option --out requires a value".into()))
    );
    assert_eq!(detect_cli_error("permission denied"), None);
    let e = event("tar -x --bogus", None, None, Some("tar: unrecognized option '--bogus'"), true);
    assert!(CliExtractor.can_handle(&e));
    let r = CliExtractor.extract(&e);
    assert_eq!(r.constraints[0].title, "CLI error: unknown_flag");
    assert_eq!(r.constraints[0].confidence.rank, 800);
    assert!(!CliExtractor.can_handle(&event("ls", None, None, None, false)));
}

#[test]
fn registry_merges_in_order() {
    let e = event("sqlite3 db 'x'", Some("sqlite:db"), None, Some("Error: no such column: q\nunknown option -z"), true);
    let r = ExtractorRegistry::default().extract(&e);
    // SQLite's failure pattern first, then the CLI extractor's.
    assert_eq!(r.failure_patterns.len(), 2);
    assert_eq!(r.failure_patterns[0].error_family, "unknown_column");
    assert_eq!(r.failure_patterns[1].error_family, "unknown_flag");
}

#[test]
fn merge_appends() {
    let mut a = Extracted::default();
    let mut b = Extracted::default();
    b.facts.push(fact("f1", None, 1, 0));
    a.facts.push(fact("f0", None, 1, 0));
    a.merge(b);
    assert_eq!(a.facts.len(), 2);
    assert_eq!(a.facts[1].id, "f1");
}

// ---------------------------------------------------------------------------
// Ranking
// ---------------------------------------------------------------------------

#[test]
fn ranking_orders_dedupes_and_limits() {
    let req = request("default", "sqlite3", Some("db"), None);
    let records = vec![
        fact("a", None, 990, 0),
        fact("b", Some("db"), 500, 0),
        fact("c", Some("db"), 800, 0),
        fact("b", Some("db"), 999, 0),
        fact("d", Some("other"), 999, 0),
    ];
    let ranked = rank_facts(records, &req, 3);
    let ids: Vec<&str> = ranked.iter().map(|f| f.id.as_str()).collect();
    // Scoped first (by confidence), then unscoped; duplicate "b" keeps its first occurrence.
    assert_eq!(ids, vec!["c", "b", "a"]);
    assert_eq!(ranked[1].confidence.rank, 500);
}

#[test]
fn ranking_ties_keep_input_order_and_newer_wins() {
    let req = request("default", "sqlite3", None, None);
    let ranked = rank_facts(
        vec![fact("x", None, 500, 1_000_000), fact("y", None, 500, 5_000_000), fact("z", None, 500, 1_500_000)],
        &req,
        10,
    );
    let ids: Vec<&str> = ranked.iter().map(|f| f.id.as_str()).collect();
    // y is newer; x and z fall in the same second and keep their order.
    assert_eq!(ids, vec!["y", "x", "z"]);
}

#[test]
fn ranking_failure_patterns_only_recurring() {
    let req = request("default", "sqlite3", None, None);
    let ranked = rank_failure_patterns(
        vec![failure("once", None, 1, 0), failure("twice", None, 2, 0), failure("often", None, 7, 0)],
        &req,
        3,
    );
    let ids: Vec<&str> = ranked.iter().map(|f| f.id.as_str()).collect();
    assert_eq!(ids, vec!["often", "twice"]);
}

#[test]
fn ranking_playbooks_by_family() {
    let pb = |id: &str, fam: Option<&str>| PlaybookRecord {
        id: id.into(),
        namespace: "default".into(),
        tool_name: "sqlite3".into(),
        error_family: fam.map(|s| s.to_string()),
        title: id.into(),
        steps: vec![],
        confidence: rank_conf(500),
        updated_at: micros(0),
    };
    let ranked = rank_playbooks(vec![pb("general", None), pb("other", Some("x")), pb("match", Some("unknown_column"))], Some("unknown_column"), 2);
    let ids: Vec<&str> = ranked.iter().map(|p| p.id.as_str()).collect();
    assert_eq!(ids, vec!["match", "general"]);
}

#[test]
fn ranking_zero_limit_is_empty() {
    let req = request("default", "sqlite3", None, None);
    assert!(rank_facts(vec![fact("a", None, 1, 0)], &req, 0).is_empty());
}

// ---------------------------------------------------------------------------
// Formatting
// ---------------------------------------------------------------------------

#[test]
fn prompt_context_empty() {
    assert_eq!(format_prompt_context(&vec![], &vec![], &vec![], &vec![], &vec![]), "No relevant stored context.");
}

#[test]
fn prompt_context_bullets_and_cap() {
    let facts: Vec<FactRecord> = (0..4).map(|i| fact(&format!("f{i}"), None, 1, 0)).collect();
    let constraints = vec![ConstraintRecord {
        id: "c".into(),
        namespace: "default".into(),
        tool_name: "sqlite3".into(),
        resource_id: None,
        topic: "t".into(),
        title: "Invalid reference: unknown_column".into(),
        content: "no such column: x".into(),
        confidence: rank_conf(900),
        updated_at: micros(0),
        ttl_seconds: None,
    }];
    let failures = vec![failure("p", None, 12, 0)];
    let playbooks = vec![PlaybookRecord {
        id: "pb".into(),
        namespace: "default".into(),
        tool_name: "sqlite3".into(),
        error_family: None,
        title: "Inspect".into(),
        steps: vec!["a".into(), "b".into()],
        confidence: rank_conf(1000),
        updated_at: micros(0),
    }];
    let text = format_prompt_context(&facts, &playbooks, &vec![], &constraints, &failures);
    let lines: Vec<&str> = text.split('\n').collect();
    assert_eq!(lines.len(), 6);
    assert_eq!(lines[0], "- title f0: content f0");
    assert_eq!(lines[4], "- [constraint] Invalid reference: unknown_column: no such column: x");
    assert_eq!(lines[5], "- [failure x12] unknown_column: pattern p");

    let short = format_prompt_context(&vec![], &playbooks, &vec![ObservationRecord {
        id: "o".into(),
        namespace: "default".into(),
        tool_name: "sqlite3".into(),
        resource_id: None,
        topic: "t".into(),
        content: "db is empty".into(),
        confidence: rank_conf(900),
        updated_at: micros(0),
        ttl_seconds: None,
    }], &vec![], &vec![]);
    assert_eq!(short, "- Inspect: a; b\n- db is empty");
}

#[test]
fn prompt_context_lists_only_recurring_failures() {
    let once = vec![failure("x", None, 1, 0)];
    assert_eq!(
        format_prompt_context(&vec![], &vec![], &vec![], &vec![], &once),
        "No relevant stored context."
    );
    let mixed = vec![failure("a", None, 1, 0), failure("b", None, 2, 0), failure("c", None, 0, 0)];
    assert_eq!(
        format_prompt_context(&vec![], &vec![], &vec![], &vec![], &mixed),
        "- [failure x2] unknown_column: pattern b"
    );
}

// ---------------------------------------------------------------------------
// The in-memory store
// ---------------------------------------------------------------------------

#[test]
fn store_replaces_same_key() {
    let mut store = InMemoryStore::new(100);
    store.put_fact(fact("a", None, 100, 0));
    store.put_fact(fact("a", None, 900, 0));
    let listed = store.list_facts("default", "sqlite3", None);
    assert_eq!(listed.len(), 1);
    assert_eq!(listed[0].confidence.rank, 900);
}

#[test]
fn store_lists_by_scope() {
    let mut store = InMemoryStore::new(100);
    store.put_fact(fact("a", None, 1, 0));
    store.put_fact(fact("b", Some("db1"), 1, 0));
    store.put_fact(fact("c", Some("db2"), 1, 0));
    assert_eq!(store.list_facts("default", "sqlite3", None).len(), 3);
    let ids: Vec<String> = store.list_facts("default", "sqlite3", Some("db1")).into_iter().map(|f| f.id).collect();
    assert_eq!(ids, vec!["a".to_string(), "b".to_string()]);
    assert!(store.list_facts("other", "sqlite3", None).is_empty());
}

#[test]
fn observations_expire() {
    let mut store = InMemoryStore::new(60);
    let obs = |id: &str, ttl: Option<u64>| ObservationRecord {
        id: id.into(),
        namespace: "default".into(),
        tool_name: "sqlite3".into(),
        resource_id: None,
        topic: "t".into(),
        content: "c".into(),
        confidence: rank_conf(1000),
        updated_at: micros(0),
        ttl_seconds: ttl,
    };
    store.put_observation(obs("default_ttl", None));
    store.put_observation(obs("long", Some(3600)));
    // 60 s exactly is not expired; 61 s is, for the default TTL.
    assert_eq!(store.list_observations_at("default", "sqlite3", None, micros(60_000_000)).len(), 2);
    let ids: Vec<String> = store.list_observations_at("default", "sqlite3", None, micros(61_000_000)).into_iter().map(|o| o.id).collect();
    assert_eq!(ids, vec!["long".to_string()]);
    // Less than a whole second more does not count.
    assert_eq!(store.list_observations_at("default", "sqlite3", None, micros(60_999_999)).len(), 2);
}

#[test]
fn failure_patterns_evict_oldest_per_resource() {
    let mut store = InMemoryStore::new(1_000_000);
    for i in 0..20 {
        let r = failure(&format!("p{i}"), Some("db"), 1, 1000 - i as i64);
        assert!(store.can_record_failure_pattern(&r));
        store.put_failure_pattern_at(r, micros(2000));
    }
    // Another resource is not affected.
    store.put_failure_pattern_at(failure("other", Some("db2"), 1, 0), micros(2000));
    store.put_failure_pattern_at(failure("new", Some("db"), 1, 5000), micros(5000));
    let listed = store.list_failure_patterns_at("default", "sqlite3", Some("db"), micros(5000));
    let db: Vec<&FailurePatternRecord> = listed.iter().filter(|p| p.resource_id.as_deref() == Some("db")).collect();
    assert_eq!(db.len(), 20);
    // p19 had the earliest first_seen and was dropped.
    assert!(!db.iter().any(|p| p.id == "p19"));
    assert!(db.iter().any(|p| p.id == "new"));
    assert!(listed.iter().any(|p| p.id == "other") == false);
    assert_eq!(store.list_failure_patterns_at("default", "sqlite3", Some("db2"), micros(5000)).len(), 1);
}

#[test]
fn failure_pattern_count_and_stamp() {
    let mut store = InMemoryStore::new(1_000_000);
    let first = store.put_failure_pattern_at(failure("p", None, 1, 10), micros(10));
    assert_eq!(first.occurrence_count, 1);
    let again = store.put_failure_pattern_at(failure("p", None, 1, 99), micros(50));
    assert_eq!(again.occurrence_count, 2);
    assert_eq!(again.first_seen, micros(10));
    assert_eq!(again.last_seen, micros(50));
    let full = failure("q", None, u32::MAX, 0);
    store.put_failure_pattern_at(full, micros(0));
    assert!(!store.can_record_failure_pattern(&failure("q", None, 1, 0)));
}

// ---------------------------------------------------------------------------
// Retrieval
// ---------------------------------------------------------------------------

#[test]
fn retrieval_matches_error_family_and_renders() {
    let mut retriever = ContextRetriever::new(InMemoryStore::new(604800), 3);
    let pb = PlaybookRecord {
        id: "inspect".into(),
        namespace: "default".into(),
        tool_name: "sqlite3".into(),
        error_family: Some("unknown_column".into()),
        title: "Inspect schema before retrying".into(),
        steps: vec!["Run .tables".into(), "Run .schema <table>".into()],
        confidence: rank_conf(950),
        updated_at: micros(0),
    };
    retriever.store_mut().put_playbook(pb);
    let ctx = retriever.retrieve_at(&request("default", "sqlite3", None, Some("no such column: timestamp")), micros(0));
    assert_eq!(ctx.matched_error_family, Some("unknown_column".into()));
    assert_eq!(ctx.playbooks.len(), 1);
    assert_eq!(ctx.prompt_context, "- Inspect schema before retrying: Run .tables; Run .schema <table>");
    let none = retriever.retrieve_at(&request("default", "sqlite3", None, Some("no such table: x")), micros(0));
    assert!(none.playbooks.is_empty());
    assert_eq!(none.prompt_context, "No relevant stored context.");
}

// ---------------------------------------------------------------------------
// Configuration, keys and text
// ---------------------------------------------------------------------------

#[test]
fn config_defaults_and_parsing() {
    let c = Config::from_values(None, None, None, None, None);
    assert_eq!(c.redis_url, "redis://localhost:6379/0");
    assert_eq!(c.memory_ttl_seconds, 604800);
    assert_eq!(c.default_namespace, "default");
    assert_eq!(c.max_context_items, 3);
    assert_eq!(c.port, 8000);
    assert!(!c.is_memory_store());
    let c = Config::from_values(Some("memory://local".into()), Some("+60".into()), Some("ns".into()), Some("x".into()), Some("70000".into()));
    assert!(c.is_memory_store());
    assert_eq!(c.memory_ttl_seconds, 60);
    assert_eq!(c.max_context_items, 3);
    assert_eq!(c.port, 8000);
    assert_eq!(default_namespace(), "default");
    assert_eq!(default_confidence().rank, 1000);
    assert_eq!(default_confidence().literal, "1.0");
    assert_eq!(default_one(), 1);
}

#[test]
fn redis_key_layout() {
    assert_eq!(segment(None), "*");
    assert_eq!(fact_key(&fact("a", None, 1, 0)), "iterum:fact:default:sqlite3:*:a");
    assert_eq!(fact_key(&fact("a", Some("db"), 1, 0)), "iterum:fact:default:sqlite3:db:a");
    let pb = PlaybookRecord {
        id: "p".into(),
        namespace: "n".into(),
        tool_name: "t".into(),
        error_family: Some("e".into()),
        title: String::new(),
        steps: vec![],
        confidence: rank_conf(0),
        updated_at: micros(0),
    };
    assert_eq!(playbook_key(&pb), "iterum:playbook:n:t:p");
    assert_eq!(
        listing_indices("facts", "n", "t", Some("db")),
        vec![
            "iterum:index:facts:n:t".to_string(),
            "iterum:index:facts:n:t:db".to_string(),
            "iterum:index:facts:n:t:*".to_string()
        ]
    );
    let next = next_failure_pattern(Some(failure("p", None, 3, 7)), failure("p", None, 1, 9), micros(42));
    assert_eq!((next.occurrence_count, next.first_seen, next.last_seen), (4, micros(7), micros(42)));
    assert_eq!(next_failure_pattern(None, failure("p", None, 1, 9), micros(42)).occurrence_count, 1);
}

#[test]
fn text_helpers() {
    assert_eq!(decimal_text(0), "0");
    assert_eq!(decimal_text(1234567890123), "1234567890123");
    assert_eq!(lines_of("a\r\nb\n\nc\r"), vec!["a".to_string(), "b".to_string(), String::new(), "c\r".to_string()]);
    assert!(lines_of("").is_empty());
    assert_eq!(trimmed(" \t x y \n"), "x y");
    assert_eq!(trimmed("   "), "");
    assert_eq!(find_line("ok\nSOME Error here\nerror", &vec!["error"]), Some("SOME Error here".into()));
    assert_eq!(find_line("ok", &vec!["error"]), None);
}

#[test]
fn store_extracted_lists_items_in_order() {
    let mut store = InMemoryStore::new(604800);
    let e = event("sqlite3 db '.schema t'", Some("sqlite:db"), Some("CREATE TABLE t(x)"), None, false);
    let stored = ingest(&mut store, &e);
    assert_eq!(stored.len(), 1);
    assert_eq!(stored[0].0, "fact");
    let facts = store.list_facts("default", "sqlite3", Some("sqlite:db"));
    assert_eq!(facts[0].id, stored[0].1);
}


#[test]
fn trimming_follows_unicode_white_space() {
    let text = "\u{3000}\u{85}\u{a0} x y \u{2028}\u{202f}\t";
    assert_eq!(trimmed(text), text.trim());
    assert_eq!(trimmed(text), "x y");
    assert_eq!(trimmed("\u{200b}x"), "\u{200b}x");
}

#[test]
fn repeated_failure_pattern_in_one_extraction_is_counted_twice() {
    let mut store = InMemoryStore::new(604800);
    let mut x = Extracted::default();
    x.failure_patterns = vec![failure("p", Some("db"), 1, 5), failure("p", Some("db"), 1, 5)];
    assert!(can_store_extracted(&store, &x));
    let response = store_extracted(&mut store, x);
    assert_eq!(response.stored.len(), 2);
    assert_eq!(response.stored[0].id, "p");
    assert_eq!(response.stored[1].id, "p");
    let listed = store.list_failure_patterns("default", "sqlite3", Some("db"));
    assert_eq!(listed.len(), 1);
    assert_eq!(listed[0].occurrence_count, 2);
    assert_eq!(listed[0].first_seen, micros(5));

    let mut full = Extracted::default();
    full.failure_patterns = vec![failure("q", None, u32::MAX - 1, 0), failure("q", None, 1, 0)];
    assert!(can_store_extracted(&store, &full));
    full.failure_patterns.push(failure("q", None, 1, 0));
    assert!(!can_store_extracted(&store, &full));
}

/// The identifier the service derives from a JSON object, computed here with
/// serde_json and sha2 directly.
fn expected_id(prefix: &str, map: serde_json::Map<String, serde_json::Value>) -> String {
    let text = serde_json::to_string(&serde_json::Value::Object(map)).unwrap();
    let digest = sha2::Sha256::digest(text.as_bytes());
    let hex: String = digest.iter().map(|b| format!("{b:02x}")).collect();
    format!("{prefix}_{}", &hex[..12])
}

#[test]
fn confidence_keeps_every_digit_in_ids_and_records() {
    for c in [0.95f64, 0.1234, 1.0, 0.333333333333, 1e-7] {
        let literal = serde_json::to_string(&c).unwrap();
        let request = StoreFactRequest {
            id: None,
            namespace: "default".into(),
            tool_name: "sqlite3".into(),
            resource_id: None,
            topic: "t".into(),
            title: "T".into(),
            content: "C".into(),
            confidence: Confidence { literal: literal.clone(), rank: (c * 1000.0) as u64 },
        };
        let mut map = serde_json::Map::new();
        map.insert("namespace".into(), serde_json::Value::from("default"));
        map.insert("tool_name".into(), serde_json::Value::from("sqlite3"));
        map.insert("resource_id".into(), serde_json::Value::Null);
        map.insert("topic".into(), serde_json::Value::from("t"));
        map.insert("title".into(), serde_json::Value::from("T"));
        map.insert("content".into(), serde_json::Value::from("C"));
        map.insert("confidence".into(), serde_json::Value::from(c));
        let record = request.into_record();
        assert_eq!(record.id, expected_id("fact", map));
        assert_eq!(record.confidence.literal.parse::<f64>().unwrap(), c);
    }
}

#[test]
fn expiry_counts_seconds_as_chrono_does() {
    let stamp = |t: DateTime<Utc>| Stamp { secs: t.timestamp(), nanos: t.timestamp_subsec_nanos() };
    let at = |s: i64, n: u32| DateTime::from_timestamp(s, n).unwrap();
    let leap = NaiveDate::from_ymd_opt(2016, 12, 31)
        .unwrap()
        .and_hms_nano_opt(23, 59, 59, 1_500_000_000)
        .unwrap()
        .and_utc();
    let times = [
        at(0, 500_000_000),
        at(60, 499_999_999),
        at(61, 0),
        at(61, 500_000_000),
        at(-3, 999_999_999),
        at(-65, 1),
        leap,
        at(leap.timestamp() - 59, 0),
        at(leap.timestamp() + 61, 200_000_000),
    ];
    for then in times {
        for now in times {
            let elapsed = (now - then).num_seconds();
            let mut store = InMemoryStore::new(60);
            store.put_observation(ObservationRecord {
                id: "o".into(),
                namespace: "default".into(),
                tool_name: "sqlite3".into(),
                resource_id: None,
                topic: "t".into(),
                content: "c".into(),
                confidence: rank_conf(1000),
                updated_at: stamp(then),
                ttl_seconds: None,
            });
            let live = store.list_observations_at("default", "sqlite3", None, stamp(now)).len() == 1;
            assert_eq!(live, elapsed <= 60, "then {then:?} now {now:?}");
        }
    }
}

#[test]
fn ranking_reads_whole_seconds_of_nanosecond_times() {
    let req = request("default", "sqlite3", None, None);
    let mut a = fact("a", None, 500, 0);
    let mut b = fact("b", None, 500, 0);
    a.updated_at = Stamp { secs: 10, nanos: 900_000_000 };
    b.updated_at = Stamp { secs: 11, nanos: 1 };
    let ranked = rank_facts(vec![a, b], &req, 2);
    assert_eq!(ranked[0].id, "b");
    assert_eq!(ranked[0].updated_at, Stamp { secs: 11, nanos: 1 });
}

#[test]
fn numbers_parse_as_std_parses_them() {
    let cases = ["", "+", "-1", "+0", "007", "18446744073709551615", "18446744073709551616", "65535", "65536", "\u{663}", "1 ", "4294967296"];
    for v in cases {
        let c = Config::from_values(None, Some(v.into()), None, Some(v.into()), Some(v.into()));
        assert_eq!(c.memory_ttl_seconds, v.parse::<u64>().unwrap_or(604800), "{v:?}");
        assert_eq!(c.max_context_items, v.parse::<usize>().unwrap_or(3), "{v:?}");
        assert_eq!(c.port, v.parse::<u16>().unwrap_or(8000), "{v:?}");
    }
}
