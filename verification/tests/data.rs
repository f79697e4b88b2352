use pumper_routes::clock::Instant;
use pumper_routes::datasets::{
    changes_answer, dataset_changes, dataset_duplicates, default_distance,
    default_removed_exclude, default_trust_all, default_trust_stable, history_answer,
    list_records, parse_removed, record_history, records_next_cursor, trust_filter, ChangesQuery, RecordsQuery, RowKey,
};
use pumper_routes::derived::{
    backfill_derived, create_derived, BackfillBody, CreateDerivedBody, LookupBody,
};
use pumper_routes::doctor::{
    datasets_doctor, missing_bodies, pass_totals, store_report, AppReclaim, ArtifactScan,
    DatasetCoverage, DoctorFacts, LedgerStat, StorageConfig,
};
use pumper_routes::export::{
    append_row, disposition, export_may_emit_terminator, export_records, format_batch,
    ExportFormat, ExportQuery, ExportRow, ExportWalk, Record,
};
use pumper_routes::filters::{filter_specs, parse_filters, JsonFilter};
use pumper_routes::json::Json;
use pumper_routes::metrics::{pass_counts, KeyReport, StoreSize, TaskTally};
use pumper_routes::provenance::{
    artifact_location, artifact_refusal, chain_limit, check_body, choose_revision, get_provenance,
    jobs_to_resolve, lineage_key, rederive_provenance, replay_gate, replay_pins, safe_segment,
    strip_meta, ArtifactFault, Coverage, Provenance, RecordHead, ReplaySubject, Revision,
    RulesFault, Segment,
};
use pumper_routes::removal::{
    delete_gate, delete_order, delete_outcome, delete_receipt, export_file_name, export_header,
    export_record_page, export_revision_page, file_component, preview_body, DatasetCounts,
    DeleteGate, DeleteVerdict, ExportStage, RecordRow, RevisionRow,
};
use serde_json::Value;

fn from_value(v: &Value) -> Json {
    match v {
        Value::Null => Json::Null,
        Value::Bool(b) => Json::Bool(*b),
        Value::Number(n) => Json::Number(n.to_string()),
        Value::String(s) => Json::Text(s.clone()),
        Value::Array(items) => Json::Array(items.iter().map(from_value).collect()),
        Value::Object(map) => {
            let mut out = Json::object();
            for (k, v) in map {
                out.set(k, from_value(v));
            }
            out
        }
    }
}

fn json(text: &str) -> Json {
    from_value(&serde_json::from_str::<Value>(text).expect("valid JSON"))
}

fn at(secs: i64) -> Instant {
    Instant::new(secs, 0).unwrap()
}

fn strings(items: &[&str]) -> Vec<String> {
    items.iter().map(|s| s.to_string()).collect()
}

fn pairs(items: &[(&str, &str)]) -> Vec<(String, String)> {
    items.iter().map(|(k, v)| (k.to_string(), v.to_string())).collect()
}

#[test]
fn filter_specs_pulls_only_repeated_filter_keys() {
    let pairs = vec![
        ("limit".to_string(), "10".to_string()),
        ("filter".to_string(), "$.state:eq:CA".to_string()),
        ("cursor".to_string(), "x".to_string()),
        ("filter".to_string(), "$.n:numgte:5".to_string()),
    ];
    assert_eq!(filter_specs(&pairs), vec!["$.state:eq:CA", "$.n:numgte:5"]);
}

#[test]
fn parses_each_op_and_preserves_colons_in_value() {
    let specs = strings(&[
        "$.state:eq:CA",
        "$.name:contains:health",
        "$.close_date:gte:2026-01-01",
        "$.close_date:lte:2026-12-31",
        "$.seen:eq:2026-07-17T10:30:00Z",
    ]);
    let out = parse_filters(&specs).expect("valid");
    assert!(
        matches!(&out[0], JsonFilter::Eq { path, value } if path == "$.state" && value == "CA")
    );
    assert!(matches!(&out[1], JsonFilter::Contains { .. }));
    assert!(matches!(&out[2], JsonFilter::Gte { .. }));
    assert!(matches!(&out[3], JsonFilter::Lte { .. }));
    assert!(
        matches!(&out[4], JsonFilter::Eq { value, .. } if value == "2026-07-17T10:30:00Z"),
        "value must keep colons after the op"
    );
}

#[test]
fn numgte_parses_number_and_multiple_paths() {
    let out = parse_filters(&["$.award_ceiling,$.total_funding:numgte:1000".to_string()])
        .expect("valid");
    match &out[0] {
        JsonFilter::NumGteAny { paths, value } => {
            assert_eq!(
                paths,
                &vec!["$.award_ceiling".to_string(), "$.total_funding".to_string()]
            );
            assert_eq!(value.parse::<f64>().unwrap(), 1000.0);
        }
        other => panic!("expected NumGteAny, got {other:?}"),
    }
}

#[test]
fn rejects_malformed_specs() {
    assert!(parse_filters(&["$.state".to_string()]).is_err());
    assert!(parse_filters(&["$.state:eq".to_string()]).is_err());
    assert!(parse_filters(&["state:eq:CA".to_string()]).is_err());
    assert!(parse_filters(&["$.state:like:CA".to_string()]).is_err());
    assert!(parse_filters(&["$.n:numgte:lots".to_string()]).is_err());
    assert!(parse_filters(&["$.a,bad:numgte:1".to_string()]).is_err());
}

#[test]
fn empty_specs_yield_no_filters() {
    assert!(parse_filters(&[]).expect("ok").is_empty());
}

#[test]
fn a_malformed_spec_says_what_is_wrong_with_it() {
    let refusal = |spec: &str| {
        let e = parse_filters(&[spec.to_string()]).unwrap_err();
        assert_eq!(e.status, 400);
        e.message
    };
    assert_eq!(
        refusal("$.state"),
        "filter '$.state' must be '<path>:<op>:<value>' (e.g. $.state:eq:CA)"
    );
    assert_eq!(
        refusal("state:eq:CA"),
        "filter path 'state' must be a JSON path starting with '$.' (in 'state:eq:CA')"
    );
    assert_eq!(
        refusal("$.n:numgte:lots"),
        "filter '$.n:numgte:lots': 'lots' is not a number for op 'numgte'"
    );
    assert_eq!(
        refusal(" , :numgte:1"),
        "filter ' , :numgte:1': 'numgte' needs at least one path"
    );
    assert_eq!(
        refusal("$.s:like:CA"),
        "filter '$.s:like:CA': unknown op 'like' (eq | contains | gte | lte | numgte)"
    );
}

#[test]
fn records_are_read_with_their_trust_and_their_tombstones() {
    assert_eq!(default_trust_all(), "all");
    assert_eq!(default_trust_stable(), "stable");
    assert_eq!(default_removed_exclude(), "exclude");
    assert_eq!(trust_filter("all"), None);
    assert_eq!(trust_filter("stable"), Some("stable"));
    assert_eq!(parse_removed("include"), Ok(true));
    assert_eq!(parse_removed("exclude"), Ok(false));
    assert_eq!(parse_removed("maybe").unwrap_err().status, 400);

    let query = RecordsQuery {
        limit: 5_000,
        cursor: Some("t|k".to_string()),
        trust: "stable".to_string(),
        removed: "include".to_string(),
    };
    let plan = list_records(&query, &pairs(&[("filter", "$.a:eq:1")])).unwrap();
    assert_eq!(plan.limit, 1000);
    assert_eq!(plan.filters.len(), 1);
    assert_eq!(plan.trust.as_deref(), Some("stable"));
    assert!(plan.include_removed && plan.paged);
    assert_eq!(plan.after, Some(("t".to_string(), "k".to_string())));
    let rows = vec![
        RowKey { ts: "t1".to_string(), key: "a".to_string() },
        RowKey { ts: "t2".to_string(), key: "b".to_string() },
    ];
    assert_eq!(records_next_cursor(&rows, 2), Some("t2|b".to_string()));
    assert_eq!(records_next_cursor(&rows, 3), None);
}

#[test]
fn the_change_feed_refuses_a_bad_since_and_a_bad_cursor() {
    let query = |since: Option<&str>, cursor: Option<&str>| ChangesQuery {
        since: since.map(str::to_string),
        limit: 0,
        cursor: cursor.map(str::to_string),
        trust: "all".to_string(),
    };
    let plan = dataset_changes(&query(Some("2026-01-01T00:00:00Z"), Some("t|4"))).unwrap();
    assert_eq!(plan.since, Some(at(1_767_225_600)));
    assert_eq!(plan.limit, 1);
    assert_eq!(plan.after, Some(("t".to_string(), 4)));
    let e = dataset_changes(&query(Some("yesterday"), None)).unwrap_err();
    assert_eq!(e.status, 400);
    assert!(e.message.starts_with("invalid 'since': "), "{}", e.message);
    assert!(e.message.len() > "invalid 'since': ".len());
    assert_eq!(dataset_changes(&query(None, Some("garbage"))).unwrap_err().status, 400);
    assert_eq!(record_history(900, &None).unwrap(), (500, None));
    assert_eq!(record_history(1, &Some("t|x".to_string())).unwrap_err().status, 400);
}

#[test]
fn the_duplicate_scan_is_capped() {
    assert_eq!(default_distance(), 3);
    assert_eq!(dataset_duplicates(10_000, 3), Ok(3));
    assert_eq!(dataset_duplicates(1, 64), Ok(20));
    let e = dataset_duplicates(10_001, 3).unwrap_err();
    assert_eq!(e.status, 413);
    assert!(e.message.contains("10001 records"), "{}", e.message);
}

fn record(key: &str) -> ExportRow {
    ExportRow {
        record: Record {
            key: key.to_string(),
            data: "{\"v\":1}".to_string(),
            first_seen: at(0),
            last_seen: at(0),
            updated_at: at(0),
            removed_at: None,
        },
        json: Ok(format!("{{\"key\":\"{key}\"}}")),
        ts: "1970-01-01T00:00:00.000000Z".to_string(),
    }
}

fn a_serde_json_error() -> serde_json::Error {
    serde_json::from_str::<i32>("not a number").unwrap_err()
}

#[test]
fn append_row_success_appends_the_line_for_ndjson_and_json() {
    let mut chunk = String::new();
    let mut first = true;
    let failed = append_row::<serde_json::Error>(
        &mut chunk,
        &mut first,
        ExportFormat::Ndjson,
        Ok(r#"{"key":"a"}"#.to_string()),
    );
    assert!(!failed);
    assert_eq!(chunk, "{\"key\":\"a\"}\n");

    let mut chunk = String::new();
    let mut first = true;
    append_row::<serde_json::Error>(
        &mut chunk,
        &mut first,
        ExportFormat::Json,
        Ok(r#"{"key":"a"}"#.to_string()),
    );
    append_row::<serde_json::Error>(
        &mut chunk,
        &mut first,
        ExportFormat::Json,
        Ok(r#"{"key":"b"}"#.to_string()),
    );
    assert_eq!(chunk, r#"{"key":"a"},{"key":"b"}"#, "json rows comma-joined");
}

#[test]
fn append_row_serialization_failure_is_counted_not_silently_dropped() {
    let mut chunk = String::new();
    let mut first = true;
    let failed = append_row(
        &mut chunk,
        &mut first,
        ExportFormat::Ndjson,
        Err(a_serde_json_error()),
    );
    assert!(failed, "a failed serialization must be reported, not eaten");
    assert!(chunk.is_empty(), "no partial/garbage bytes for a failed row");

    let mut chunk = "key\n".to_string();
    let mut first = true;
    for format in [ExportFormat::Json, ExportFormat::Csv] {
        assert!(append_row(&mut chunk, &mut first, format, Err(a_serde_json_error())));
        assert_eq!((chunk.as_str(), first), ("key\n", true));
    }
}

#[test]
fn format_batch_counts_zero_failures_for_ordinary_records() {
    let batch = vec![record("a"), record("b"), record("c")];
    let mut first = true;
    let (chunk, failed) = format_batch(ExportFormat::Ndjson, &batch, &mut first);
    assert_eq!(failed, 0);
    assert_eq!(chunk.lines().count(), 3);
}

#[test]
fn export_terminator_not_emitted_after_mid_stream_abort() {
    assert!(
        !export_may_emit_terminator(ExportFormat::Json, true),
        "an aborted json export must not get the closing ']'"
    );
    assert!(
        export_may_emit_terminator(ExportFormat::Json, false),
        "a json export that read every page cleanly still needs its ']'"
    );
    assert!(!export_may_emit_terminator(ExportFormat::Ndjson, false));
    assert!(!export_may_emit_terminator(ExportFormat::Csv, false));
}

#[test]
fn a_csv_row_quotes_its_texts_and_stamps_its_instants() {
    let mut row = record("a\"b,c");
    row.record.removed_at = Some(at(1_767_225_600));
    let mut first = true;
    let (chunk, _) = format_batch(ExportFormat::Csv, &[row], &mut first);
    assert_eq!(
        chunk,
        "\"a\"\"b,c\",1970-01-01T00:00:00+00:00,1970-01-01T00:00:00+00:00,\
         1970-01-01T00:00:00+00:00,2026-01-01T00:00:00+00:00,\"{\"\"v\"\":1}\"\n"
    );
}

#[test]
fn an_export_is_the_same_however_it_is_paged() {
    let rows = vec![record("a"), record("b"), record("c")];
    let mut whole = ExportWalk::start(ExportFormat::Json);
    let mut one = String::from(whole.opening());
    one.push_str(&whole.take_page(&rows));
    one.push_str(whole.closing());
    assert_eq!(one, "[{\"key\":\"a\"},{\"key\":\"b\"},{\"key\":\"c\"}]");

    let mut first = true;
    let (head, _) = format_batch(ExportFormat::Json, &rows[..1], &mut first);
    let (tail, _) = format_batch(ExportFormat::Json, &rows[1..], &mut first);
    assert_eq!(format!("[{head}{tail}]"), one);

    let mut broken = ExportWalk::start(ExportFormat::Json);
    broken.take_page(&rows);
    let stood = broken.after.clone();
    assert!(stood.is_some());
    broken.store_failed();
    assert_eq!(broken.after, stood);
    assert_eq!(broken.closing(), "", "a truncated array stays open");
    assert_eq!(ExportWalk::start(ExportFormat::Ndjson).opening(), "");
    assert!(ExportWalk::start(ExportFormat::Csv)
        .opening()
        .starts_with("key,first_seen,last_seen,updated_at,removed_at,data"));
}

#[test]
fn an_export_refuses_what_it_does_not_know() {
    let query = |format: Option<&str>, trust: &str, removed: &str| ExportQuery {
        format: format.map(str::to_string),
        trust: trust.to_string(),
        removed: removed.to_string(),
    };
    let plan = export_records(&query(Some("csv"), "all", "exclude"), &[]).unwrap();
    assert_eq!(plan.format, ExportFormat::Csv);
    assert_eq!(plan.trust, None);
    assert!(!plan.include_removed);
    assert_eq!(export_records(&query(None, "stable", "include"), &[]).unwrap().format, ExportFormat::Json);
    let e = export_records(&query(Some("xml"), "all", "exclude"), &[]).unwrap_err();
    assert_eq!(
        (e.status, e.message.as_str()),
        (400, "unknown format 'xml' (json | ndjson | csv)")
    );
    assert_eq!(export_records(&query(None, "sort-of", "exclude"), &[]).unwrap_err().status, 400);
    assert_eq!(export_records(&query(None, "all", "perhaps"), &[]).unwrap_err().status, 400);
    assert_eq!(
        disposition("unified", ExportFormat::Ndjson),
        "attachment; filename=\"unified.ndjson\""
    );
    assert_eq!(ExportFormat::Json.content_type(), "application/json");
    assert_eq!(ExportFormat::Csv.extension(), "csv");
}

fn counts(records: u64) -> DatasetCounts {
    DatasetCounts { app: "grants".to_string(), dataset: "unified".to_string(), records, revisions: 9 }
}

#[test]
fn a_delete_is_previewed_confirmed_and_checked_again() {
    match delete_gate(&counts(4), None, None) {
        DeleteGate::Preview(p) => {
            assert_eq!(p.confirm, "grants/unified");
            assert_eq!(p.expect_records, 4);
        }
        other => panic!("{other:?}"),
    }
    assert!(matches!(delete_gate(&counts(4), Some("grants/unified"), None), DeleteGate::Preview(_)));
    match delete_gate(&counts(4), Some("grants/other"), Some(4)) {
        DeleteGate::Refused(e) => assert_eq!(e.status, 400),
        other => panic!("{other:?}"),
    }
    assert_eq!(
        delete_gate(&counts(4), Some(" grants/unified "), Some(4)),
        DeleteGate::Proceed { expect_records: 4 }
    );
    assert_eq!(delete_outcome(DeleteVerdict::Deleted(counts(4))), Ok(counts(4)));
    let e = delete_outcome(DeleteVerdict::YieldChanged { expected: 4, found: counts(5) }).unwrap_err();
    assert_eq!(e.status, 409);
    assert!(e.message.contains("you confirmed 4 record(s), it now holds 5"), "{}", e.message);
    assert_eq!(delete_outcome(DeleteVerdict::Preview(counts(4))).unwrap_err().status, 500);
}

#[test]
fn an_export_file_name_cannot_leave_its_directory() {
    assert_eq!(file_component("grants-gov"), "grants-gov");
    assert!(!file_component("../../etc/passwd").contains('/'));
    let name = export_file_name("grants", "unified", at(1_767_225_600));
    assert!(name.contains("20260101T000000000Z"), "{name}");
    assert!(name.contains("grants") && name.contains("unified"), "{name}");
}

fn record_row(n: u32) -> RecordRow {
    RecordRow {
        row: json(&format!(r#"{{"key": "k{n}"}}"#)),
        updated_at: format!("t{n}"),
        key: format!("k{n}"),
    }
}

#[test]
fn the_export_reads_on_exactly_while_pages_come_back_full() {
    let full: Vec<RecordRow> = (0..500).map(record_row).collect();
    let (lines, next) = export_record_page(&full);
    assert_eq!(lines.len(), 500);
    assert!(lines[7].same_as(&json(r#"{"key": "k7", "kind": "record"}"#)));
    assert_eq!(next, ExportStage::Records(Some(("t499".into(), "k499".into()))));
    let (lines, next) = export_record_page(&[record_row(3)]);
    assert_eq!((lines.len(), next), (1, ExportStage::Revisions(None)));
    let (lines, next) = export_record_page(&[]);
    assert_eq!((lines.len(), next), (0, ExportStage::Revisions(None)));

    let revision = |n: i64| RevisionRow {
        row: json(r#"{"kind": "spoofed", "revision": 4}"#),
        key: "a".into(),
        revision: n,
    };
    let (lines, next) = export_revision_page(&[revision(4)]);
    assert!(lines[0].same_as(&json(r#"{"kind": "revision", "revision": 4}"#)));
    assert_eq!(next, ExportStage::Complete);
    let full: Vec<RevisionRow> = (0..500).map(revision).collect();
    let (_, next) = export_revision_page(&full);
    assert_eq!(next, ExportStage::Revisions(Some(("a".into(), 499))));
    let (_, next) = export_revision_page(&[]);
    assert_eq!(next, ExportStage::Complete);
}

#[test]
fn a_preview_never_passes_for_a_receipt() {
    let counts = || DatasetCounts {
        app: "grants".into(),
        dataset: "unified".into(),
        records: 12,
        revisions: 40,
    };
    let preview = preview_body(&counts(), "2026-01-01T00:00:00Z");
    assert!(preview.same_as(&json(
        r#"{"preview": true, "code": "confirmation_required",
            "error": "this deletes 12 record(s) and 40 revision(s) permanently. Retry with ?confirm=grants/unified&expect_records=12 to proceed.",
            "app": "grants", "dataset": "unified", "records": 12, "revisions": 40,
            "expect_records": 12, "confirm": "grants/unified",
            "as_of": "2026-01-01T00:00:00Z"}"#
    )));
    let receipt = delete_receipt(&counts(), "/x/grants.ndjson", "2026-01-01T00:00:01Z");
    assert!(receipt.same_as(&json(
        r#"{"preview": false, "app": "grants", "dataset": "unified", "deleted": 12,
            "records": 12, "revisions": 40, "export": "/x/grants.ndjson",
            "as_of": "2026-01-01T00:00:01Z"}"#
    )));
    let header = export_header("grants", "unified", "2026-01-01T00:00:00Z", 12);
    assert!(header.same_as(&json(
        r#"{"kind": "header", "export": "pumper.dataset.pre-delete", "version": 1,
            "app": "grants", "dataset": "unified",
            "exported_at": "2026-01-01T00:00:00Z", "records_expected": 12}"#
    )));
}

#[test]
fn nothing_is_deleted_without_its_export() {
    let order = delete_order(12, Some("/x/grants.ndjson".into())).expect("an order");
    assert_eq!((order.expect_records, order.export.as_str()), (12, "/x/grants.ndjson"));
    let refused = delete_order(12, None).expect_err("no export, no order");
    assert_eq!(refused.status, 500);
    assert_eq!(
        refused.message,
        "the pre-delete export could not be written, so nothing was deleted"
    );
}

#[test]
fn strip_meta_removes_only_underscore_prefixed_top_level_keys() {
    let (kept, ignored) = strip_meta(&json(
        r#"{"title": "A", "_url": "https://x", "_observed_at": "t", "price": 3,
            "nested": { "_inner": "stays" }}"#,
    ));
    assert_eq!(
        kept,
        json(r#"{ "title": "A", "price": 3, "nested": { "_inner": "stays" } }"#)
    );
    assert_eq!(ignored, vec!["_observed_at".to_string(), "_url".to_string()]);
    let (kept, ignored) = strip_meta(&json("[1, 2]"));
    assert_eq!(kept, json("[1, 2]"));
    assert!(ignored.is_empty());
}

#[test]
fn canonical_is_key_order_stable() {
    let mut a = Json::object();
    a.set("b", Json::integer(1));
    a.set("a", Json::integer(2));
    let mut b = Json::object();
    b.set("a", Json::integer(2));
    b.set("b", Json::integer(1));
    assert!(a.same_as(&b));
    assert_eq!(a, b);
}

fn revision(n: i64, sha: Option<&str>) -> Revision {
    Revision {
        revision: n,
        change: "changed".to_string(),
        created_at: "2026-01-01T00:00:00Z".to_string(),
        trust: "stable".to_string(),
        data: Some(json(r#"{"title": "A"}"#)),
        provenance: Provenance {
            job_id: None,
            source_url: None,
            artifact_sha: sha.map(str::to_string),
            rules_hash: sha.map(|_| "rules".to_string()),
        },
    }
}

#[test]
fn a_replay_needs_pins_and_reports_what_it_saw() {
    let chain = vec![revision(2, Some("sha")), revision(1, None)];
    assert_eq!(choose_revision(&chain, Some(1)), Ok(1));
    assert_eq!(choose_revision(&chain, Some(9)).unwrap_err().status, 404);
    assert!(chain[0].provenance.replayable());
    assert!(!chain[1].provenance.replayable());
    let (_, sha, rules) = replay_pins(&chain[0]).unwrap();
    assert_eq!((sha, rules), ("sha", "rules"));
    assert_eq!(replay_pins(&chain[1]).unwrap_err().status, 409);

    let body: Result<String, String> = Ok("abc".to_string());
    let mut rev = revision(2, Some(ABC_DIGEST));
    rev.data = Some(json(r#"{"title": "A", "_url": "https://x"}"#));
    let replay = |produced: &str, diff: Json| {
        rederive_provenance(&subject(), &rev, &Ok(()), &body, &json(produced), diff).unwrap()
    };
    let same = replay(r#"{"title": "A"}"#, Json::Null);
    assert!(same.same_as(&json(&format!(
        r#"{{"app": "a", "dataset": "d", "key": "k", "revision": 2,
             "artifact_sha": "{ABC_DIGEST}", "rules_hash": "rules",
             "ignored_meta_fields": ["_url"], "verdict": "reproduced"}}"#
    ))));
    let other = replay(r#"{"title": "B"}"#, json("[1]"));
    assert_eq!(other.text_at("verdict"), Some("diverged"));
    assert_eq!(other.get("diff"), Some(&json("[1]")));
}

const ABC_DIGEST: &str = "ba7816bf8f01cfea414140de5dae2223b00361a396177a9cb410ff61f20015ad";

fn subject() -> ReplaySubject {
    ReplaySubject { app: "a".to_string(), dataset: "d".to_string(), key: "k".to_string() }
}

#[test]
fn a_body_is_replayed_only_under_its_own_digest() {
    assert_eq!(check_body("abc", ABC_DIGEST), Ok(()));
    assert_eq!(check_body("abd", ABC_DIGEST).unwrap_err().status, 409);
}

#[test]
fn an_artifact_path_is_made_of_safe_segments() {
    for bad in ["", ".", "..", "a/b", "a\\b"] {
        assert!(!safe_segment(bad), "{bad:?}");
    }
    assert!(safe_segment("page.html"));
    assert_eq!(artifact_location("app", &json("{}")), Err(ArtifactFault::NoPath));
    assert_eq!(
        artifact_location("app", &json(r#"{"artifact_path": "x"}"#)),
        Err(ArtifactFault::NoJob)
    );
    let shown = artifact_refusal(&ArtifactFault::Unsafe(Segment::ArtifactPath, "..\n".to_string()));
    assert!(shown.contains("\"..\\n\""), "{shown}");
}

fn claim_key() -> KeyReport {
    KeyReport {
        op: "job_claim".to_string(),
        table: "jobs".to_string(),
        phase: "execute".to_string(),
        lifetime: 1,
        slow_lifetime: 1,
        slow_line_micros: 5_000,
        busy_lifetime: 0,
        errors_lifetime: 0,
        rows_lifetime: 1,
        p50_micros: 7_000,
        p95_micros: 7_000,
        samples: 1,
        wrapped: false,
        window_secs: 0,
        window_rows: 1,
        worst_micros: 7_000,
    }
}

fn idle_key(op: &str, table: &str, phase: &str) -> KeyReport {
    KeyReport {
        op: op.to_string(),
        table: table.to_string(),
        phase: phase.to_string(),
        lifetime: 0,
        slow_lifetime: 0,
        slow_line_micros: 5_000,
        busy_lifetime: 0,
        errors_lifetime: 0,
        rows_lifetime: 0,
        p50_micros: 0,
        p95_micros: 0,
        samples: 0,
        wrapped: false,
        window_secs: 0,
        window_rows: 0,
        worst_micros: 0,
    }
}

fn number(j: &Json, key: &str) -> f64 {
    match j.get(key) {
        Some(Json::Number(t)) => t.parse().unwrap(),
        other => panic!("{key}: {other:?}"),
    }
}

#[test]
fn every_derived_figure_names_its_recomputation() {
    let measured = strings(&["job_claim", "dataset_write"]);
    let keys: Vec<KeyReport> = vec![
        idle_key("job_claim", "jobs", "acquire"),
        claim_key(),
        idle_key("dataset_write", "records", "acquire"),
        idle_key("dataset_write", "records", "execute"),
    ];
    let counts = pass_counts(&[]);
    let report =
        store_report(&measured, &keys, &StoreSize::default(), &json("[]"), &counts, 0, false);
    let derived = report.get("derived_by").expect("derived_by block");
    for figure in
        ["p50_ms", "p95_ms", "window_secs", "slow_lifetime", "worst_ms", "busy_lifetime"]
    {
        let how = derived
            .text_at(figure)
            .unwrap_or_else(|| panic!("{figure} is derived but names no recomputation"));
        assert!(how.len() > 20, "{figure}'s recomputation is not stated: {how}");
    }
    let ops = match report.get("operations") {
        Some(Json::Array(ops)) => ops,
        other => panic!("operations: {other:?}"),
    };
    assert_eq!(
        ops.len(),
        keys.len(),
        "every key is reported, including the ones with no traffic"
    );
    let idle = ops
        .iter()
        .find(|o| o.text_at("op") == Some("dataset_write") && o.text_at("phase") == Some("acquire"))
        .expect("an untouched key");
    assert_eq!(number(idle, "samples"), 0.0);
    assert_eq!(number(idle, "p95_ms"), 0.0);
    let claim = ops
        .iter()
        .find(|o| o.text_at("op") == Some("job_claim") && o.text_at("phase") == Some("execute"))
        .expect("the claim key");
    assert_eq!(number(claim, "p95_ms"), 7.0);
    assert_eq!(number(claim, "samples"), 1.0);
    assert_eq!(claim.text_at("table"), Some("jobs"), "the join key with the table report");
    assert_eq!(number(claim, "slow_line_ms"), 5.0, "the count carries its predicate");
}

#[test]
fn the_report_admits_which_populations_it_does_not_measure() {
    let measured = strings(&["job_claim", "dataset_write"]);
    let tallies =
        vec![TaskTally { task: "wal_checkpoint".to_string(), ran: 0, deferred: 0, failed: 0 }];
    let passes = pass_counts(&tallies);
    let report = store_report(&measured, &[], &StoreSize::default(), &json("[]"), &passes, 0, false);
    match report.get("measured") {
        Some(Json::Array(items)) => assert_eq!(items.len(), measured.len()),
        other => panic!("measured: {other:?}"),
    }
    let unmeasured = report.text_at("unmeasured").expect("an unmeasured note");
    for absent in ["schedules", "triggers", "deliveries", "search"] {
        assert!(
            unmeasured.to_lowercase().contains(absent),
            "the note does not admit {absent}: {unmeasured}"
        );
    }
    let totals = pass_totals(&passes);
    assert_eq!(report.get("maintenance").and_then(|m| m.get("passes")), Some(&totals));
    let checkpoint = totals.get("wal_checkpoint").expect("pass totals");
    assert_eq!(number(checkpoint, "deferred"), 0.0);
    assert_eq!(number(checkpoint, "ran"), 0.0);
}

fn derived_body() -> CreateDerivedBody {
    CreateDerivedBody {
        source_app: "grants".to_string(),
        source_dataset: "unified".to_string(),
        target_dataset: "open".to_string(),
        filters: Some(strings(&["$.status:eq:open"])),
        project: Some(pairs(&[("title", "$.title")])),
        lookup: None,
        group_by: None,
        aggregates: None,
    }
}

#[test]
fn a_derived_dataset_must_be_well_formed() {
    let spec = create_derived(derived_body()).unwrap();
    assert_eq!(spec.filters, strings(&["$.status:eq:open"]));
    assert_eq!(spec.group, None);

    let refusal = |change: fn(&mut CreateDerivedBody)| {
        let mut body = derived_body();
        change(&mut body);
        let e = create_derived(body).unwrap_err();
        assert_eq!(e.status, 400);
        e.message
    };
    assert_eq!(refusal(|b| b.source_app = " ".to_string()), "source_app must not be empty");
    assert_eq!(
        refusal(|b| b.target_dataset = String::new()),
        "target_dataset must not be empty"
    );
    assert!(refusal(|b| b.filters = Some(vec!["nope".to_string()])).contains("must be"));
    assert_eq!(
        refusal(|b| b.project = Some(vec![("t".to_string(), "title".to_string())])),
        "project field 't' must map to a JSON path starting with '$.' (got 'title')"
    );
    assert_eq!(
        refusal(|b| b.lookup = Some(LookupBody {
            dataset: "d".to_string(),
            key_expr: "id".to_string(),
            merge_as: "m".to_string(),
        })),
        "lookup.key_expr must be a JSON path starting with '$.' (got 'id')"
    );
    assert_eq!(
        refusal(|b| b.lookup = Some(LookupBody {
            dataset: String::new(),
            key_expr: "$.id".to_string(),
            merge_as: "m".to_string(),
        })),
        "lookup.dataset and lookup.merge_as must not be empty"
    );
    assert_eq!(
        refusal(|b| b.group_by = Some(vec!["$.state".to_string()])),
        "group_by and aggregates must be provided together"
    );
}

#[test]
fn a_backfill_is_bounded_and_a_disabled_spec_is_inert() {
    let opts = backfill_derived("s", Some(true), None).unwrap();
    assert_eq!((opts.batch, opts.max_rows, opts.cursor), (500, 50_000, None));
    let body = BackfillBody {
        batch: Some(5_000),
        max_rows: Some(7),
        cursor: Some("c".to_string()),
    };
    let opts = backfill_derived("s", Some(true), Some(body)).unwrap();
    assert_eq!((opts.batch, opts.max_rows, opts.cursor.as_deref()), (1000, 7, Some("c")));
    let e = backfill_derived("s", Some(false), None).unwrap_err();
    assert_eq!((e.status, e.message.as_str()), (409, "derived spec 's' is disabled"));
    let e = backfill_derived("s", None, None).unwrap_err();
    assert_eq!((e.status, e.message.as_str()), (404, "unknown derived spec 's'"));
}

#[test]
fn a_chain_names_the_lineage_of_each_stamped_job() {
    assert_eq!((chain_limit(None), chain_limit(Some(0)), chain_limit(Some(9_999))), (50, 1, 500));
    let id = "33333333-3333-3333-3333-333333333333";
    let mut newest = revision(2, Some("sha"));
    newest.provenance.job_id = Some(id.to_string());
    let mut older = revision(1, None);
    older.provenance.job_id = Some(id.to_string());
    let mut oldest = revision(0, None);
    oldest.provenance.job_id = Some("peer:7".to_string());
    let chain = vec![newest, older, oldest];
    assert_eq!(jobs_to_resolve(&chain), vec![id.to_string(), "peer:7".to_string()]);
    assert_eq!(lineage_key(id), Some([0x33; 16]));
    assert_eq!(lineage_key("peer:7"), None);

    let mut jobs = Json::object();
    jobs.set(id, json(r#"{"app": "grants"}"#));
    let head = RecordHead {
        app: "grants".to_string(),
        dataset: "unified".to_string(),
        key: "k".to_string(),
        trust: "stable".to_string(),
        removed_at: None,
    };
    let coverage = Coverage { revisions: 9, with_job: 3, replayable: 1 };
    let body = get_provenance(&head, coverage, &chain[1..], &jobs);
    assert!(body.same_as(&json(
        r#"{"app": "grants", "dataset": "unified", "key": "k", "trust": "stable",
            "removed_at": null,
            "coverage": {"revisions": 9, "with_job": 3, "replayable": 1},
            "chain": [
                {"revision": 1, "change": "changed", "created_at": "2026-01-01T00:00:00Z",
                 "trust": "stable",
                 "provenance": {"job_id": "33333333-3333-3333-3333-333333333333",
                    "source_url": null, "artifact_sha": null, "rules_hash": null,
                    "replayable": false},
                 "job": {"app": "grants"}},
                {"revision": 0, "change": "changed", "created_at": "2026-01-01T00:00:00Z",
                 "trust": "stable",
                 "provenance": {"job_id": "peer:7", "source_url": null, "artifact_sha": null,
                    "rules_hash": null, "replayable": false},
                 "job": null}
            ]}"#
    )));
}

#[test]
fn a_replay_that_cannot_take_place_says_why() {
    let rev = revision(2, Some(ABC_DIGEST));
    let why = |rev: &Revision, rules: Result<(), RulesFault>, body: Result<&str, &str>| {
        let body = body.map(str::to_string).map_err(str::to_string);
        let answer =
            rederive_provenance(&subject(), rev, &rules, &body, &json("{}"), Json::Null);
        let refused = answer.unwrap_err();
        assert_eq!(refused.status, 409);
        let gate = replay_gate(rev, &rules, &body).unwrap_err();
        assert_eq!(gate.message, refused.message);
        refused.message
    };
    assert!(why(&rev, Err(RulesFault::Unregistered), Ok("abc")).starts_with("rules rules not in"));
    assert_eq!(
        why(&rev, Err(RulesFault::Unparseable("x".into())), Ok("abc")),
        "registered rules unparseable as a RuleSet: x"
    );
    assert_eq!(
        why(&rev, Err(RulesFault::Uncompilable("x".into())), Err("gone")),
        "registered rules no longer compile: x"
    );
    assert_eq!(why(&rev, Ok(()), Err("x")), "archived body unavailable: x");
    assert!(why(&rev, Ok(()), Ok("abd")).contains("does not match the stamped artifact_sha"));

    let mut gap = revision(2, Some(ABC_DIGEST));
    gap.provenance.artifact_sha = None;
    assert!(why(&gap, Err(RulesFault::Unregistered), Err("x"))
        .starts_with("revision 2 is not replayable: artifact_sha unknown"));
    gap.provenance.rules_hash = None;
    assert!(why(&gap, Ok(()), Ok("abc")).contains("artifact_sha and rules_hash unknown"));
    gap.data = None;
    assert!(why(&gap, Ok(()), Ok("abc")).starts_with("revision 2 is a removal"));
}

#[test]
fn a_feed_is_answered_as_it_was_asked_for() {
    let query = |cursor: Option<&str>| ChangesQuery {
        since: None,
        limit: 10,
        cursor: cursor.map(str::to_string),
        trust: "stable".to_string(),
    };
    let next = Some("2026-01-01T00:00:00Z|7".to_string());
    let items = || vec![json(r#"{"key": "a"}"#), json(r#"{"key": "b"}"#)];
    let page = r#"{"items": [{"key": "a"}, {"key": "b"}],
                   "next_cursor": "2026-01-01T00:00:00Z|7"}"#;
    assert!(changes_answer("grants", "unified", &query(None), items(), &next).same_as(&json(
        r#"{"app": "grants", "dataset": "unified", "count": 2, "trust": "stable",
            "changes": [{"key": "a"}, {"key": "b"}]}"#
    )));
    let paged = changes_answer("grants", "unified", &query(Some("")), items(), &next);
    assert!(paged.same_as(&json(page)));
    assert!(history_answer("grants", "unified", "a", &None, items(), &next).same_as(&json(
        r#"{"app": "grants", "dataset": "unified", "key": "a", "count": 2,
            "revisions": [{"key": "a"}, {"key": "b"}]}"#
    )));
    let asked = Some(String::new());
    let paged = history_answer("grants", "unified", "a", &asked, items(), &next);
    assert!(paged.same_as(&json(page)));
    let last = history_answer("grants", "unified", "a", &asked, vec![], &None);
    assert!(last.same_as(&json(r#"{"items": [], "next_cursor": null}"#)));
}

#[test]
fn a_store_without_findings_is_healthy() {
    assert_eq!(missing_bodies(&[true, false, true, false]), vec![1, 3]);
    let cfg = StorageConfig {
        cost_event_retention_days: 30,
        webhook_delivery_retention_days: 14,
        webhook_dead_letter_retention_days: 0,
        job_yield_retention_days: 90,
        saved_search_seen_retention_days: 0,
        revision_retention_days: 0,
    };
    let unscanned = || ArtifactScan {
        root: "/data".to_string(),
        present: vec![],
        per_app: vec![],
    };
    let retained = |app: &str, bytes: u64| AppReclaim {
        app: app.to_string(),
        files: 2,
        bytes,
        reclaimable_files: 1,
        reclaimable_bytes: 5,
        pinned_files: 0,
        pinned_bytes: 0,
        cassette_files: 0,
        cassette_bytes: 0,
        within_window_files: 1,
        within_window_bytes: 6,
    };
    let facts = |findings: Vec<Json>, artifacts: ArtifactScan| DoctorFacts {
        now: at(1_767_225_600),
        findings,
        artifacts,
        search_enabled: true,
        search_docs: None,
        live_records: 4,
        tables: vec![LedgerStat {
            table: "cost_events".to_string(),
            rows: 10,
            oldest: Some(at(1_767_225_600 - 3 * 86_400)),
        }],
        coverage: vec![DatasetCoverage {
            app: "grants".to_string(),
            dataset: "unified".to_string(),
            revisions: 5,
            with_job_id: 4,
            replayable: 3,
        }],
        store: json("{}"),
        unbounded_growth_days: 180,
    };
    let body = datasets_doctor(&facts(vec![], unscanned()), Some(true), &cfg).unwrap();
    assert_eq!(body.get("healthy").and_then(|h| h.as_bool()), Some(true));
    assert_eq!(body.text_at("generated_at"), Some("2026-01-01T00:00:00+00:00"));
    assert!(body.at("artifacts").same_as(&json(r#"{"scanned": false}"#)));
    assert!(body.at("search").same_as(&json(
        r#"{"enabled": true, "doc_count": null, "live_records": 4}"#
    )));
    assert!(body.at("tables").same_as(&json(
        r#"[{"table": "cost_events", "rows": 10, "oldest_days": 3, "retention_days": 30,
             "config_key": "cost_event_retention_days"}]"#
    )));
    assert!(body.at("coverage").same_as(&json(
        r#"[{"app": "grants", "dataset": "unified", "revisions": 5, "with_job_id": 4,
             "replayable": 3}]"#
    )));
    let scanned = ArtifactScan {
        root: "/data".to_string(),
        present: vec![true, false, true],
        per_app: vec![retained("grants", 40), retained("weather", 59)],
    };
    let found = facts(vec![json(r#"{"kind": "x"}"#)], scanned);
    for skip in [None, Some(false)] {
        let body = datasets_doctor(&found, skip, &cfg).unwrap();
        assert_eq!(body.get("healthy").and_then(|h| h.as_bool()), Some(false));
        let row = |app: &str, bytes: u64| {
            format!(
                r#"{{"app": "{app}", "files": 2, "bytes": {bytes}, "reclaimable_files": 1,
                     "reclaimable_bytes": 5, "pinned_files": 0, "pinned_bytes": 0,
                     "cassette_files": 0, "cassette_bytes": 0, "within_window_files": 1,
                     "within_window_bytes": 6}}"#
            )
        };
        assert!(body.at("artifacts").same_as(&json(&format!(
            r#"{{"scanned": true, "root": "/data", "bodies_checked": 3, "check_limit": 5000,
                 "per_app": [{}, {}], "total_bytes": 99}}"#,
            row("grants", 40),
            row("weather", 59)
        ))));
    }
    let body = datasets_doctor(&found, Some(true), &cfg).unwrap();
    assert!(body.at("artifacts").same_as(&json(r#"{"scanned": false}"#)));
    let mut checked = unscanned();
    checked.present = vec![true; 5_000];
    assert!(datasets_doctor(&facts(vec![], checked), None, &cfg).is_some());
    let mut checked = unscanned();
    checked.present = vec![true; 5_001];
    assert!(datasets_doctor(&facts(vec![], checked), None, &cfg).is_none());
    let mut huge = unscanned();
    huge.per_app = vec![retained("grants", u64::MAX), retained("weather", 1)];
    assert!(datasets_doctor(&facts(vec![], huge), None, &cfg).is_none());
}
