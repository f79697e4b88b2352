use pumper_routes::clock::{parse_since, Instant};
use pumper_routes::events::{
    deliver, ends_job, event_log, event_log_page, last_event_id, live_step, next_after, replay_page,
    replay_start, Delivery, LiveAction, LogReplay, LogRow, LogState, LoggedEvent, Missed, Received, Replay, LOG_DISABLED,
};
use pumper_routes::executors::{
    authorize, claim_answer, claim_job, claim_step, claim_wait, executor_finish, executor_heartbeat,
    job_not_found, list_executors, not_owned, one_outcome, owned_by, ClaimNext, ClaimSeen, ClaimedJob, ExecutorRow, Fence,
};
use pumper_routes::health::{
    get_source, health_store, list_limit, list_sources, override_answer, preview_runs, preview_sources, set_source_state,
    statistical_coverage, unknown_source, verdict_freshness, verdict_windows, verdict_with_age,
    window_for, ContractedSource, FieldSketch, SourceRow, SourceState, SourceWindow, DEFAULT_REPLAY_RUNS,
    MAX_REPLAY_RUNS,
};
use pumper_routes::jobs::Usd;
use pumper_routes::json::Json;
use pumper_routes::principals::{
    audit_next_cursor, create_principal, list_audit, list_principals, parse_audit_cursor,
    principal_found, validate_daily_budget, validate_scope, validate_scopes, Caller,
    CreatePrincipalBody,
};
use pumper_routes::provisioner::{
    fresh_validate_request, promote_proposal, promotion_facts, proposal_age,
    proposal_status, proposal_summary, record_validation, unknown_proposal, validate_proposal,
    Checked, FetchStrategy, ProposalRecord,
};
use serde_json::Value;

fn from_value(v: &Value) -> Json {
    match v {
        Value::Null => Json::Null,
        Value::Bool(b) => Json::Bool(*b),
        Value::Number(n) => Json::Number(n.to_string()),
        Value::String(s) => Json::Text(s.clone()),
        Value::Array(items) => Json::Array(items.iter().map(from_value).collect()),
        Value::Object(map) => {
            let mut out = Json::object();
            for (k, v) in map {
                out.set(k, from_value(v));
            }
            out
        }
    }
}

fn json(text: &str) -> Json {
    from_value(&serde_json::from_str::<Value>(text).expect("valid JSON"))
}

fn instant(text: &str) -> Instant {
    parse_since(Some(text)).unwrap().unwrap()
}

const NOW: &str = "2026-07-26T12:00:00.000000Z";

fn now() -> Instant {
    instant(NOW)
}

fn at(secs_ago: i64) -> String {
    let then_at = chrono::DateTime::parse_from_rfc3339(NOW).unwrap()
        - chrono::Duration::seconds(secs_ago);
    then_at.to_rfc3339()
}

fn usd(dollars: f64) -> Usd {
    Usd { bits: dollars.to_bits(), shown: dollars.to_string() }
}

#[test]
fn preview_runs_honours_the_documented_bound_not_the_raw_param() {
    assert_eq!(preview_runs(None), DEFAULT_REPLAY_RUNS);
    assert_eq!(preview_runs(Some(120)), 120);
    assert_eq!(preview_runs(Some(MAX_REPLAY_RUNS)), MAX_REPLAY_RUNS);
    assert_eq!(preview_runs(Some(50_000)), MAX_REPLAY_RUNS);
    assert_eq!(preview_runs(Some(i64::MAX)), MAX_REPLAY_RUNS);
    assert_eq!(preview_runs(Some(0)), 1);
    assert_eq!(preview_runs(Some(-7)), 1);
    assert_eq!(preview_runs(Some(i64::MIN)), 1);
    assert_eq!((DEFAULT_REPLAY_RUNS, MAX_REPLAY_RUNS), (60, 1000));
    assert_eq!((preview_sources(None), preview_sources(Some(501))), (500, 500));
    assert_eq!((list_limit(0), list_limit(50)), (1, 50));
}

#[test]
fn stale_verdict_is_distinguishable_from_a_fresh_pass() {
    let day = 86_400;
    let fresh = verdict_freshness(Some(&at(60)), SourceWindow::Secs(2 * day), now());
    assert_eq!(fresh.stale, Some(false));
    assert!(fresh.age_secs.unwrap() >= 60 && fresh.age_secs.unwrap() < 120);
    assert_eq!(fresh.reason, None);

    let old = verdict_freshness(Some(&at(3 * day)), SourceWindow::Secs(2 * day), now());
    assert_eq!(old.stale, Some(true));
    assert!(old.age_secs.unwrap() >= 3 * day);

    let retired = verdict_freshness(Some(&at(60)), SourceWindow::NotLive, now());
    assert_eq!(retired.stale, Some(true));
    assert!(retired.reason.unwrap().contains("no live catalog source"));

    for window in [SourceWindow::CatalogUnreadable, SourceWindow::NoExpectation] {
        let f = verdict_freshness(Some(&at(10 * day)), window, now());
        assert_eq!(f.stale, None, "{window:?} must not claim fresh");
        assert!(f.reason.is_some(), "{window:?} must say why");
    }
    let unstamped = verdict_freshness(None, SourceWindow::Secs(day), now());
    assert_eq!(unstamped.age_secs, None);
    assert_eq!(unstamped.stale, None);
    assert_eq!(
        verdict_freshness(Some("not-a-timestamp"), SourceWindow::Secs(day), now()).stale,
        None
    );
    let edge = verdict_freshness(Some(&at(day)), SourceWindow::Secs(day), now());
    assert_eq!(edge.stale, Some(false), "stale is past the window, not at it");
    let skewed = verdict_freshness(Some(&at(-60)), SourceWindow::Secs(day), now());
    assert_eq!(skewed.age_secs, Some(0));
}

#[test]
fn rendered_verdict_carries_its_age_not_just_its_verdict() {
    let mut stored = json(
        r#"{"verdict": "pass", "violations": [],
            "job_id": "0195f0f0-0000-7000-8000-000000000000"}"#,
    );
    stored.set("checked_at", Json::text(&at(5 * 86_400)));
    let rendered = verdict_with_age(stored, SourceWindow::Secs(86_400), now());
    assert_eq!(rendered.text_at("verdict"), Some("pass"));
    assert_eq!(rendered.get("stale"), Some(&Json::Bool(true)));
    assert!(rendered.get("age_secs").and_then(|v| v.as_i64()).unwrap() >= 5 * 86_400);
    assert!(rendered.text_at("checked_at").is_some());
    assert!(rendered.text_at("job_id").is_some());
    assert_eq!(
        verdict_with_age(Json::Null, SourceWindow::Secs(1), now()),
        Json::Null
    );
}

#[test]
fn a_source_is_judged_by_the_last_entry_the_catalog_has_for_it() {
    let source = |dataset: &str, secs: Option<i64>| ContractedSource {
        app: "grants".to_string(),
        dataset: dataset.to_string(),
        freshness_window_secs: secs,
    };
    let catalog = vec![source("a", Some(5)), source("b", None), source("a", Some(9))];
    let windows = verdict_windows(Some(&catalog));
    assert_eq!(window_for(windows.as_ref(), "grants/a"), SourceWindow::Secs(9));
    assert_eq!(window_for(windows.as_ref(), "grants/b"), SourceWindow::NoExpectation);
    assert_eq!(window_for(windows.as_ref(), "grants/c"), SourceWindow::NotLive);
    assert_eq!(window_for(None, "grants/a"), SourceWindow::CatalogUnreadable);
    assert!(verdict_windows(None).is_none());
    assert_eq!(windows.as_ref().map(|w| w.by_id.len()), Some(2), "one entry per id");

    let mut verdict = json(r#"{"verdict": "pass"}"#);
    verdict.set("checked_at", Json::text(&at(7)));
    let rows = vec![
        SourceRow {
            id: "grants/a".to_string(),
            monitored: true,
            row: json(r#"{"id": "grants/a"}"#),
            verdict: Some(verdict),
        },
        SourceRow {
            id: "grants/b".to_string(),
            monitored: false,
            row: json(r#"{"id": "grants/b"}"#),
            verdict: None,
        },
    ];
    let page = list_sources(&rows, windows.as_ref(), false, true, &json("{}"), now());
    assert_eq!(page.get("unmonitored").and_then(|v| v.as_i64()), Some(1));
    assert_eq!(page.get("count").and_then(|v| v.as_i64()), Some(2));
    match page.get("sources") {
        Some(Json::Array(shown)) => {
            let contract = shown[0].get("contract").unwrap();
            assert_eq!(contract.get("stale"), Some(&Json::Bool(false)));
            assert_eq!(contract.get("age_secs").and_then(|v| v.as_i64()), Some(7));
            assert_eq!(shown[1].get("contract"), None);
        }
        other => panic!("{other:?}"),
    }
}

#[test]
fn an_override_is_read_strictly() {
    for s in ["healthy", "suspect", "degraded", "quarantined", "probation", "retired"] {
        let o = set_source_state(s, &None).unwrap();
        assert_eq!(o.state.as_str(), s);
        assert_eq!(o.reason, "manual override");
    }
    let o = set_source_state("retired", &Some("gone".to_string())).unwrap();
    assert_eq!((o.state, o.reason.as_str()), (SourceState::Retired, "gone"));
    let e = set_source_state("Healthy", &None).unwrap_err();
    assert_eq!(e.status, 400);
    assert!(e.message.starts_with("unknown state 'Healthy' — expected one of"), "{}", e.message);
    assert_eq!(
        override_answer("x/y", &o, true),
        Ok(json(r#"{"id": "x/y", "state": "retired", "reason": "gone"}"#))
    );
    assert_eq!(override_answer("x/y", &o, false), Err(unknown_source("x/y")));
    assert_eq!(unknown_source("x/y").message, "unknown source 'x/y'");
    assert_eq!(health_store(true), Ok(()));
    assert_eq!(health_store(false).unwrap_err().status, 503);
    assert!(statistical_coverage(Some(30), 30));
    assert!(!statistical_coverage(Some(29), 30));
    assert!(!statistical_coverage(None, 0));
}

#[test]
fn daily_budget_refuses_zero_rather_than_reading_it_as_unlimited() {
    assert_eq!(validate_daily_budget(None), Ok(None));
    assert_eq!(validate_daily_budget(Some(usd(2.5))), Ok(Some(usd(2.5))));
    for bad in [0.0, -1.0, f64::NAN, f64::INFINITY] {
        assert!(
            validate_daily_budget(Some(usd(bad))).is_err(),
            "{bad} must be refused, not silently dropped to 'no ceiling'"
        );
    }
    assert_eq!(
        validate_daily_budget(Some(usd(0.0))).unwrap_err(),
        "budget_usd_per_day must be a positive number of dollars (got 0). Omitting it means this \
         key runs with NO daily ceiling, so 0 cannot also mean 'spend nothing' — pass a real \
         ceiling, or disable the key."
    );
}

#[test]
fn scopes_must_be_non_empty_and_known() {
    assert!(validate_scopes(&["admin".to_string()]).is_ok());
    assert!(
        validate_scopes(&[]).is_err(),
        "a key with no scopes can call nothing — refuse it at creation"
    );
    assert!(validate_scopes(&["write".to_string()]).is_err());
    assert!(validate_scopes(&["read".to_string(), "bogus".to_string()]).is_err());
    assert!(validate_scope("enqueue:*").is_ok());
    assert!(validate_scope("enqueue:grants-gov").is_ok());
    assert!(validate_scope("enqueue:").is_err());
}

#[test]
fn audit_cursor_parses_a_row_id_and_ignores_junk() {
    assert_eq!(parse_audit_cursor("42"), Some(42));
    assert_eq!(parse_audit_cursor(" 42 "), Some(42));
    assert_eq!(parse_audit_cursor(""), None);
    assert_eq!(parse_audit_cursor("not-a-number"), None);
}

#[test]
fn the_audit_ledger_is_paged_by_its_row_id() {
    assert_eq!(list_audit(&None, None), (None, 100));
    assert_eq!(list_audit(&Some("7".to_string()), Some(9_999)), (Some(7), 500));
    assert_eq!(audit_next_cursor(&[9, 8], 2), Some("8".to_string()));
    assert_eq!(audit_next_cursor(&[9, 8], 3), None);
    assert_eq!(audit_next_cursor(&[], 0), None);
}

#[test]
fn a_principal_is_checked_name_first() {
    let body = |name: &str, scopes: &[&str], budget: Option<f64>| CreatePrincipalBody {
        name: name.to_string(),
        scopes: scopes.iter().map(|s| s.to_string()).collect(),
        budget_usd_per_day: budget.map(usd),
        rate_limit_per_min: Some(5),
    };
    let p = create_principal(body(" ci ", &["read"], Some(1.0))).unwrap();
    assert_eq!((p.name.as_str(), p.rate_limit_per_min), ("ci", Some(5)));
    let e = create_principal(body(" ", &[], Some(0.0))).unwrap_err();
    assert_eq!((e.status, e.message.as_str()), (400, "name is required"));
    assert_eq!(create_principal(body("ci", &["write"], Some(0.0))).unwrap_err().status, 400);
    assert_eq!(create_principal(body("ci", &["read"], Some(0.0))).unwrap_err().status, 422);
    assert_eq!(principal_found(true), Ok(()));
    assert_eq!(principal_found(false).unwrap_err().message, "principal not found");

    let caller = Caller {
        id: "local".to_string(),
        name: "local".to_string(),
        scopes: vec!["admin".to_string()],
        synthetic: true,
    };
    let page = list_principals(vec![json("{}")], "open", &Some(caller));
    assert_eq!(page.get("caller").and_then(|c| c.get("synthetic")), Some(&Json::Bool(true)));
    assert_eq!(list_principals(vec![], "open", &None).get("caller"), Some(&Json::Null));
}

#[test]
fn proposal_status_defaults_to_planned_when_the_field_is_absent() {
    assert_eq!(proposal_status(&json("{}")), "planned");
    assert_eq!(proposal_status(&json(r#"{"status": "validated"}"#)), "validated");
}

fn expired(status: &str, age_secs: i64, max_age_secs: i64) -> bool {
    status == "planned" && age_secs > max_age_secs
}

#[test]
fn summary_surfaces_the_reviewer_scan_fields_and_computes_age_and_expiry() {
    let old = instant(&at(200));
    let record_with = |data: Json| ProposalRecord {
        key: "k".to_string(),
        data,
        first_seen: at(200),
        updated_at: at(200),
    };
    let summary = |record: &ProposalRecord| {
        let (status, age) = proposal_age(&record.data, old, now());
        proposal_summary(record, age, expired(&status, age, 100))
    };
    let rec = record_with(json(
        r#"{"prompt": "track widget prices",
            "status": "planned",
            "verdict": "accepted",
            "accepted": true,
            "catalog_confidence": 4,
            "catalog_row": {"engine": "http", "url": "https://a.example"},
            "intended_dataset": "proposed:track-widget-prices"}"#,
    ));
    let s = summary(&rec);
    assert_eq!(s.text_at("key"), Some("k"));
    assert_eq!(s.text_at("engine"), Some("http"));
    assert_eq!(s.text_at("url"), Some("https://a.example"));
    assert_eq!(s.get("age_secs"), Some(&Json::integer(200)));
    assert_eq!(
        s.get("expired"),
        Some(&Json::Bool(true)),
        "planned + past the configured window => expired"
    );
    assert_eq!(s.text_at("prompt"), Some("track widget prices"));
    assert_eq!(s.get("catalog_confidence"), Some(&Json::integer(4)));

    let validated = record_with(json(r#"{"status": "validated"}"#));
    let s = summary(&validated);
    assert_eq!(s.get("expired"), Some(&Json::Bool(false)));
    assert_eq!(s.get("engine"), Some(&Json::Null));
}

#[test]
fn fresh_validate_request_never_sets_an_archive_window() {
    let req = fresh_validate_request("https://a.example");
    assert_eq!(req.strategy, FetchStrategy::Auto);
    assert!(req.to_markdown);
    assert!(req.use_recipes);
    assert!(
        req.archive_max_age.is_none(),
        "validation must never be satisfiable by a stale archive snapshot"
    );
}

#[test]
fn a_proposal_is_checked_and_promoted_on_its_evidence() {
    let data = json(
        r#"{"accepted": true, "verdict": "accepted", "catalog_row": {"url": "https://a.example"}}"#,
    );
    let q = validate_proposal("k", &data, &Ok(())).unwrap();
    assert_eq!(q.url, "https://a.example");
    let e = validate_proposal("k", &data, &Err("bad".to_string())).unwrap_err();
    assert_eq!(e.message, "proposal 'k': stored rule_set no longer parses: bad");
    let e = validate_proposal("k", &json("{}"), &Ok(())).unwrap_err();
    assert_eq!(e.message, "proposal 'k': catalog_row has no url to validate");
    let refused = |rules: Result<(), String>, checked: Checked| {
        let e = record_validation("k", &data, &rules, &checked, NOW).unwrap_err();
        assert_eq!(e.status, 400);
        e.message
    };
    assert_eq!(
        refused(Ok(()), Checked::FetchFailed("x".to_string())),
        "proposal 'k': fetch of https://a.example failed: x"
    );
    assert_eq!(refused(Ok(()), Checked::NoSample("no body".to_string())), "proposal 'k': no body");
    let sampled = |accepted: bool| Checked::Sampled {
        sample: json("1"),
        dry_run: json("2"),
        accepted,
    };
    assert_eq!(
        refused(Err("bad".to_string()), sampled(true)),
        "proposal 'k': stored rule_set no longer parses: bad"
    );
    assert_eq!(unknown_proposal("k").message, "no proposal 'k'");

    let (stored, answer) =
        record_validation("k", &data, &Ok(()), &sampled(true), NOW).unwrap();
    assert_eq!(stored.text_at("status"), Some("validated"));
    assert!(answer.same_as(&json(&format!(
        r#"{{"key": "k", "status": "validated", "validation": {{"checked_at": "{NOW}",
             "sample": 1, "dry_run": 2, "accepted": true}}}}"#
    ))));
    let (stored, answer) =
        record_validation("k", &data, &Ok(()), &sampled(false), NOW).unwrap();
    assert_eq!(answer.text_at("status"), Some("failed"));
    assert_eq!(stored.text_at("status"), Some("failed"));
    assert_eq!(stored.text_at("verdict"), Some("accepted"), "the compile's record is kept");
    assert_eq!(promotion_facts(&stored), ("failed".to_string(), true));

    let e = promote_proposal("k", &stored, false, Ok("t".to_string()), NOW).unwrap_err();
    assert_eq!(e.status, 409);
    assert_eq!(
        e.message,
        "proposal 'k' cannot be promoted: status='failed', compile-time accepted=true. Validate \
         it (POST /provisioner/proposals/k/validate) until it passes, or re-propose with a \
         revised prompt."
    );
    let e = promote_proposal("k", &data, true, Err("x".to_string()), NOW).unwrap_err();
    assert_eq!(e.message, "proposal 'k': stored catalog_row no longer parses: x");
    let (stored, answer) =
        promote_proposal("k", &data, true, Ok("[[source]]".to_string()), NOW).unwrap();
    assert_eq!(stored.text_at("status"), Some("promoted"));
    assert_eq!(stored.text_at("promoted_at"), Some(NOW));
    assert_eq!(answer.text_at("catalog_toml"), Some("[[source]]"));
}

#[test]
fn a_resume_point_is_a_sequence_id() {
    assert_eq!(last_event_id(Some(" 42 ")), Some(42));
    assert_eq!(last_event_id(Some("x")), None);
    assert_eq!(last_event_id(None), None);
}

fn rows(seqs: &[u64]) -> Vec<LogRow> {
    seqs.iter().map(|s| LogRow { seq: *s, readable: true }).collect()
}

fn walk(step: Replay) -> LogReplay {
    match step {
        Replay::ReadLog(walk) => walk,
        other => panic!("{other:?}"),
    }
}

#[test]
fn a_gap_is_replayed_from_the_ring_or_the_log_or_not_at_all() {
    assert_eq!(replay_start(5, 5, None, true), Replay::Events(vec![]));
    assert_eq!(replay_start(5, 3, Some(&[4, 5]), true), Replay::Events(vec![4, 5]));
    assert_eq!(replay_start(5, 3, Some(&[5]), false), Replay::Reset(5));
    let from_empty_ring = walk(replay_start(5, 3, Some(&[]), true));
    assert_eq!(from_empty_ring.cursor, 3);
    assert_eq!(
        replay_page(from_empty_ring, Some(&rows(&[4, 5]))),
        Replay::Events(vec![4, 5])
    );
    let start = || walk(replay_start(5, 3, None, true));
    assert_eq!(replay_page(start(), Some(&rows(&[5]))), Replay::Reset(5));
    assert_eq!(replay_page(start(), None), Replay::Reset(5));
    assert_eq!(replay_page(start(), Some(&[])), Replay::Reset(5), "a pruned log is no empty gap");
    let half = walk(replay_page(start(), Some(&rows(&[4]))));
    assert_eq!((half.cursor, half.found.as_slice()), (4, [4].as_slice()));
    assert_eq!(replay_page(half, Some(&[])), Replay::Events(vec![4]));
}

#[test]
fn an_unreadable_row_is_skipped_and_a_long_gap_is_a_reset() {
    let start = walk(replay_start(6, 3, None, true));
    let page = vec![
        LogRow { seq: 4, readable: false },
        LogRow { seq: 5, readable: true },
        LogRow { seq: 6, readable: true },
    ];
    let next = walk(replay_page(start, Some(&page)));
    assert_eq!(next.found, [5, 6]);
    assert_eq!(replay_page(next, Some(&[])), Replay::Events(vec![5, 6]));

    let far = walk(replay_start(20_000, 0, None, true));
    let seqs: Vec<u64> = (1..=10_000).collect();
    assert_eq!(replay_page(far, Some(&rows(&seqs))), Replay::Reset(20_000));
}

#[test]
fn a_live_stream_never_repeats_an_event() {
    let missed = |seq: u64, in_scope: bool| Missed { seq, in_scope, terminal: false };
    assert_eq!(
        deliver(&[missed(4, true), missed(5, false), missed(6, true)], 3),
        Delivery { sent: vec![4, 6], last_seq: 6, ended: false }
    );
    assert_eq!(deliver(&[], 3), Delivery { sent: vec![], last_seq: 3, ended: false });
    let mut last = 6;
    let event = |seq: u64, in_scope: bool, terminal: bool| Received::Event { seq, in_scope, terminal };
    assert_eq!(live_step(&mut last, event(6, true, false)), LiveAction::Skip);
    assert_eq!(live_step(&mut last, event(7, true, false)), LiveAction::Send);
    assert_eq!(live_step(&mut last, event(8, false, true)), LiveAction::Skip);
    assert_eq!(last, 8, "an event out of scope still counts as seen");
    assert_eq!(live_step(&mut last, Received::Lagged), LiveAction::Recover);
    assert_eq!(live_step(&mut last, event(9, true, true)), LiveAction::SendAndEnd);
    assert_eq!(live_step(&mut last, Received::Ended), LiveAction::End);
}

#[test]
fn a_replayed_terminal_event_ends_the_stream_of_its_job() {
    let missed = |seq: u64, in_scope: bool, status: &str| Missed {
        seq,
        in_scope,
        terminal: ends_job(status),
    };
    let replay = [
        missed(4, true, "running"),
        missed(5, false, "failed"),
        missed(6, true, "succeeded"),
        missed(7, true, "queued"),
    ];
    assert_eq!(deliver(&replay, 3), Delivery { sent: vec![4, 6], last_seq: 6, ended: true });
    let mut last = 3;
    let mut live = Vec::new();
    for event in &replay {
        let Missed { seq, in_scope, terminal } = *event;
        match live_step(&mut last, Received::Event { seq, in_scope, terminal }) {
            LiveAction::Send => live.push(seq),
            LiveAction::SendAndEnd => {
                live.push(seq);
                break;
            }
            _ => {}
        }
    }
    assert_eq!((live, last), (vec![4, 6], 6));
    for (status, over) in [
        ("queued", false),
        ("running", false),
        ("waiting", false),
        ("succeeded", true),
        ("failed", true),
        ("cancelled", true),
        ("changed", false),
    ] {
        assert_eq!(ends_job(status), over, "{status}");
    }
}

#[test]
fn a_log_page_names_the_cursor_of_the_next() {
    let events = || {
        vec![
            LoggedEvent { seq: 4, body: json(r#"{"seq": 4}"#) },
            LoggedEvent { seq: 9, body: json(r#"{"seq": 9}"#) },
        ]
    };
    let log = LogState { latest_seq: 12, retained: 8, pending: 1, retention_days: 30 };
    assert!(event_log_page(events(), 2, log).same_as(&json(
        r#"{"count": 2, "next_after": 9, "latest_seq": 12, "retained": 8, "pending": 1,
            "retention_days": 30, "events": [{"seq": 4}, {"seq": 9}]}"#
    )));
    assert_eq!(event_log_page(events(), 3, log).get("next_after"), Some(&Json::Null));
}

#[test]
fn the_log_is_paged_until_a_page_does_not_fill() {
    assert_eq!(event_log(true, None, None), Ok((0, 100)));
    assert_eq!(event_log(true, Some(-5), Some(9_999)), Ok((0, 500)));
    let e = event_log(false, None, None).unwrap_err();
    assert_eq!((e.status, e.message.as_str()), (409, LOG_DISABLED));
    assert_eq!(next_after(&[3, 4], 2), Some(4));
    assert_eq!(next_after(&[3, 4], 3), None);
}

#[test]
fn the_executor_plane_guards_its_doors() {
    assert_eq!(authorize(true, true), Ok(()));
    assert_eq!(authorize(false, true).unwrap_err().status, 404);
    let e = authorize(true, false).unwrap_err();
    assert_eq!(
        (e.status, e.message.as_str()),
        (401, "missing or invalid x-pumper-executor-secret header")
    );
    let fence = Fence { job_id: [0; 16], attempt: 2, executor_id: "box".to_string() };
    assert_eq!(owned_by(true, &fence), Ok(()));
    let e = not_owned(&fence);
    assert_eq!(owned_by(false, &fence).unwrap_err(), e);
    assert_eq!(e.status, 409);
    assert!(
        e.message.starts_with(
            "job 00000000-0000-0000-0000-000000000000 is not running as attempt 2 on executor \
             'box' — it was reset"
        ),
        "{}",
        e.message
    );
    assert_eq!(claim_answer(&None), (204, None));
    let job = ClaimedJob {
        job_id: [0; 16],
        app: "grants".to_string(),
        params: json(r#"{"year": 2026}"#),
        attempt: 2,
        budget_usd: Some("0.5".to_string()),
        restored: Some(json(r#"{"page": 3}"#)),
        resumed_input: None,
    };
    let (status, body) = claim_answer(&Some(job));
    assert_eq!(status, 200);
    assert!(body.expect("a claimed job").same_as(&json(
        r#"{"job_id": "00000000-0000-0000-0000-000000000000", "app": "grants",
            "params": {"year": 2026}, "attempt": 2, "budget_usd": 0.5,
            "restored": {"page": 3}, "resumed_input": null}"#
    )));
    let (status, body) = executor_heartbeat(true, &fence);
    assert_eq!((status, body), (200, json(r#"{"owned": true}"#)));
    let (status, body) = executor_heartbeat(false, &fence);
    assert_eq!(status, 409);
    assert_eq!(body.get("owned"), Some(&Json::Bool(false)));
    assert_eq!(body.text_at("error"), Some(e.message.as_str()));
    assert_eq!(body.text_at("code"), Some("conflict"));
    assert_eq!(claim_job("box"), Ok(()));
    assert_eq!(claim_job(" \t").unwrap_err().status, 400);
    assert_eq!((claim_wait(0), claim_wait(30)), (1, 30));
    assert_eq!(
        job_not_found(&[0; 16]).message,
        "job 00000000-0000-0000-0000-000000000000 not found"
    );
}

#[test]
fn a_long_poll_waits_asks_again_and_gives_up() {
    assert_eq!(claim_step(ClaimSeen::Job), ClaimNext::Answer);
    assert_eq!(claim_step(ClaimSeen::Nothing { expired: false }), ClaimNext::Wait);
    assert_eq!(claim_step(ClaimSeen::Woken), ClaimNext::Ask);
    assert_eq!(claim_step(ClaimSeen::Nothing { expired: true }), ClaimNext::NoContent);
    assert_eq!(claim_step(ClaimSeen::Shutdown), ClaimNext::NoContent);
}

#[test]
fn a_finish_reports_exactly_one_outcome() {
    let fence = Fence { job_id: [0; 16], attempt: 2, executor_id: "box".to_string() };
    let finish = |result: Option<&str>, error: Option<&str>, held: bool, found: bool| {
        executor_finish(result.map(json), error.map(str::to_string), held, found, &fence)
    };
    assert_eq!(one_outcome(true, false), Ok(()));
    assert_eq!(one_outcome(false, true), Ok(()));
    for both in [false, true] {
        assert_eq!(one_outcome(both, both).unwrap_err().status, 400);
    }
    assert_eq!(finish(Some("1"), None, true, true), Ok(Ok(json("1"))));
    assert_eq!(finish(None, Some("boom"), true, true), Ok(Err("boom".to_string())));
    assert_eq!(finish(None, None, false, false).unwrap_err().status, 400);
    assert_eq!(finish(Some("1"), Some("boom"), true, true).unwrap_err().status, 400);
    assert_eq!(finish(Some("1"), None, false, true).unwrap_err(), not_owned(&fence));
    assert_eq!(finish(Some("1"), None, true, false).unwrap_err(), job_not_found(&[0; 16]));
    let row = ExecutorRow {
        id: "box".to_string(),
        state: "idle".to_string(),
        capabilities: vec!["crawl".to_string()],
        running: 0,
        claimed_total: 4,
        last_poll_at: NOW.to_string(),
        last_poll_age_secs: Some(3),
        first_seen_at: NOW.to_string(),
    };
    let page = list_executors(&[row], &["crawl".to_string()]);
    match page.get("executors") {
        Some(Json::Array(list)) => {
            assert_eq!(list[0].text_at("state"), Some("idle"));
            assert_eq!(list[0].get("capabilities"), Some(&json(r#"["crawl"]"#)));
        }
        other => panic!("{other:?}"),
    }
    assert_eq!(page.get("eligible_apps"), Some(&json(r#"["crawl"]"#)));
}

#[test]
fn a_source_without_a_baseline_has_no_miss_rate() {
    let field = |docs: u64| FieldSketch {
        field: "title".to_string(),
        docs: 12,
        miss_rate: json("0.25"),
        coercion_failure_rate: json("0.0"),
        distinct_ratio: json("0.5"),
        mean_len: json("17.5"),
        baseline_runs: 3,
        baseline_docs: docs,
        baseline_miss_rate: json("0.125"),
        baseline_distinct_ratio: json("null"),
    };
    let body = get_source(
        "grants/a",
        Some(json(r#"{"id": "grants/a"}"#)),
        None,
        None,
        false,
        12,
        vec![json(r#"{"docs": 12}"#), json(r#"{"docs": 3}"#)],
        &[field(0), field(8)],
        json("[]"),
        now(),
    )
    .expect("a known source");
    assert!(body.same_as(&json(
        r#"{"source": {"id": "grants/a"}, "contract": null, "enforcing": false,
            "statistical_coverage": true, "runs": [{"docs": 12}, {"docs": 3}],
            "fields": [
                {"field": "title", "docs": 12, "miss_rate": 0.25, "coercion_failure_rate": 0.0,
                 "distinct_ratio": 0.5, "mean_len": 17.5, "baseline_runs": 3,
                 "baseline_miss_rate": null, "baseline_distinct_ratio": null},
                {"field": "title", "docs": 12, "miss_rate": 0.25, "coercion_failure_rate": 0.0,
                 "distinct_ratio": 0.5, "mean_len": 17.5, "baseline_runs": 3,
                 "baseline_miss_rate": 0.125, "baseline_distinct_ratio": null}
            ],
            "invariants": [], "see_also": "/catalog/health — freshness (did it run?)"}"#
    )));
    for (floor, runs, covered) in [
        (13, vec![json(r#"{"docs": 12}"#)], false),
        (0, vec![], false),
        (3, vec![json(r#"{"docs": 3}"#)], true),
    ] {
        let source = Some(json("{}"));
        let body = get_source("x/y", source, None, None, true, floor, runs, &[], json("[]"), now());
        let body = body.expect("a known source");
        assert_eq!(body.get("statistical_coverage"), Some(&Json::Bool(covered)), "{floor}");
    }
    let gone = get_source("x/y", None, None, None, true, 1, vec![], &[], json("[]"), now());
    let gone = gone.expect_err("an unknown source");
    assert_eq!((gone.status, gone.message.as_str()), (404, "unknown source 'x/y'"));
}
