use pumper_routes::economics::{
    advise, app_advice, app_window, opt_add, pace_of, show_rate, window, Advice, Cadence,
    CostRow, Engine, Pace, Spend, YieldRow,
};
use pumper_routes::error::Error;
use pumper_routes::ident::show_uuid;
use pumper_routes::ingress::{
    bucket_step, create_ingress_source, derived_event_id, ingest_answer, ingest_begin,
    ingest_with_source, ingest_with_token, ingest_with_verification, new_ingress_source, rate_limit_allow, Claim,
    Ingest, IngressConfig, IngressSource, RateLimiter, SignatureHeaders,
};
use pumper_routes::jobs::{
    bulk_retry_jobs, bulk_retry_plan, cancel_job, enqueue_job, enqueue_options, enqueue_status, fresh_records, get_job,
    is_terminal, job_state_error, list_jobs, merge_params, requeued_events, unknown_app,
    validate_budget_usd, CancelKind, EnqueueBody, EnqueueTarget,
    JobStatus, Usd,
};
use pumper_routes::json::Json;
use serde_json::Value;

fn from_value(v: &Value) -> Json {
    match v {
        Value::Null => Json::Null,
        Value::Bool(b) => Json::Bool(*b),
        Value::Number(n) => Json::Number(n.to_string()),
        Value::String(s) => Json::Text(s.clone()),
        Value::Array(items) => Json::Array(items.iter().map(from_value).collect()),
        Value::Object(map) => {
            let mut out = Json::object();
            for (k, v) in map {
                out.set(k, from_value(v));
            }
            out
        }
    }
}

fn json(text: &str) -> Json {
    from_value(&serde_json::from_str::<Value>(text).expect("valid JSON"))
}

fn spend(jobs: i64, dollars: f64) -> Spend {
    let share = |of: f64| (dollars / jobs as f64 * of * 10_000.0).round() / 10_000.0;
    Spend {
        cost_usd: dollars.to_bits(),
        half_usd: share(0.5).to_bits(),
        headroom_usd: share(1.2).to_bits(),
    }
}

fn usd(dollars: f64) -> Usd {
    Usd { bits: dollars.to_bits(), shown: dollars.to_string() }
}

#[test]
fn no_override_keeps_all_defaults() {
    let out = merge_params(json(r#"{ "year": "2021", "naics": ["2382"] }"#), None);
    assert_eq!(out, json(r#"{ "year": "2021", "naics": ["2382"] }"#));
}

#[test]
fn object_override_shallow_merges_and_preserves_other_defaults() {
    let out = merge_params(
        json(r#"{ "year": "2021", "naics": ["2382"] }"#),
        Some(json(r#"{ "naics": "23" }"#)),
    );
    assert_eq!(out, json(r#"{ "year": "2021", "naics": "23" }"#));
}

#[test]
fn non_object_override_replaces() {
    let out = merge_params(json(r#"{ "a": 1 }"#), Some(json("[1, 2, 3]")));
    assert_eq!(out, json("[1, 2, 3]"));
}

#[test]
fn control_events_carry_app_not_blank() {
    let (a, b) = ([1u8; 16], [2u8; 16]);
    let events = requeued_events(&[(a, "grants-gov".into()), (b, "hackernews".into())]);
    assert_eq!(events.len(), 2, "one event per re-queued job");
    for ev in &events {
        assert!(!ev.app.is_empty(), "a blank app is invisible to every app-scoped watcher: {ev:?}");
        assert_eq!(ev.status.as_str(), "queued");
    }
    assert_eq!(events[0].job_id, a);
    assert_eq!(events[0].app, "grants-gov");
    assert_eq!(events[1].app, "hackernews", "apps are not shared across ids");
    assert!(requeued_events(&[]).is_empty(), "an empty batch says nothing");
}

#[test]
fn budget_zero_is_rejected_not_unlimited() {
    let err = validate_budget_usd(Some(usd(0.0))).unwrap_err();
    assert!(
        err.contains("positive") && err.contains("NO spend ceiling"),
        "the refusal must say what a zero budget would have meant: {err}"
    );
}

#[test]
fn negative_budget_is_rejected_not_unlimited() {
    assert!(validate_budget_usd(Some(usd(-1.5))).is_err());
    assert!(validate_budget_usd(Some(usd(f64::NAN))).is_err());
    assert!(validate_budget_usd(Some(usd(f64::INFINITY))).is_err());
    assert!(validate_budget_usd(Some(usd(-0.0))).is_err());
    assert!(validate_budget_usd(Some(usd(-f64::NAN))).is_err());
}

#[test]
fn absent_stays_none_and_positive_passes_through() {
    assert_eq!(validate_budget_usd(None).unwrap(), None);
    let kept = validate_budget_usd(Some(usd(0.25))).unwrap().unwrap();
    assert_eq!(f64::from_bits(kept.bits), 0.25);
    assert!(validate_budget_usd(Some(usd(f64::MIN_POSITIVE))).is_ok());
    assert!(validate_budget_usd(Some(usd(f64::MAX))).is_ok());
}

#[test]
fn an_enqueue_takes_its_options_from_the_body_and_the_header() {
    let body = |key: Option<&str>| EnqueueBody {
        max_attempts: Some(99),
        delay_secs: None,
        priority: Some(3),
        budget_usd: Some(usd(0.5)),
        idempotency_key: key.map(str::to_string),
    };
    let o = enqueue_options(body(Some("b")), Some("h".to_string()), Ok(())).unwrap();
    assert_eq!((o.max_attempts, o.delay_secs, o.priority), (20, 0, 3));
    assert_eq!(o.idempotency_key.as_deref(), Some("h"));
    let o = enqueue_options(body(Some("b")), None, Ok(())).unwrap();
    assert_eq!(o.idempotency_key.as_deref(), Some("b"));
    let o = enqueue_options(body(Some("b")), Some("  ".to_string()), Ok(())).unwrap();
    assert_eq!(o.idempotency_key, None);
    let e = enqueue_options(body(None), None, Err("naics: required".to_string())).unwrap_err();
    assert_eq!((e.status, e.message.as_str()), (422, "naics: required"));
    let mut broke = body(None);
    broke.budget_usd = Some(usd(0.0));
    assert_eq!(enqueue_options(broke, None, Ok(())).unwrap_err().status, 422);
    assert_eq!((enqueue_status(true), enqueue_status(false)), (202, 200));
}

#[test]
fn an_enqueue_runs_with_what_its_schema_judged() {
    let target = |defaults: Option<&str>| EnqueueTarget {
        name: "wasm-x".to_string(),
        defaults: defaults.map(json),
        dynamic: vec![json(r#"{"name": "wasm-x"}"#)],
        dynamic_reason: "listed only".to_string(),
    };
    let body = |dollars: Option<f64>| EnqueueBody {
        max_attempts: None,
        delay_secs: Some(7),
        priority: None,
        budget_usd: dollars.map(usd),
        idempotency_key: None,
    };
    let known = || target(Some(r#"{"year": "2021", "deep": {"a": 1}}"#));
    let over = || Some(json(r#"{"year": "2022"}"#));
    let (params, o) = enqueue_job(known(), over(), Ok(()), body(Some(1.5)), None).unwrap();
    assert_eq!(params, json(r#"{"year": "2022", "deep": {"a": 1}}"#));
    assert_eq!((o.max_attempts, o.delay_secs, o.priority), (1, 7, 0));
    assert_eq!(o.budget_usd, Some(usd(1.5)));
    let refused = |target, schema, dollars| {
        let e = enqueue_job(target, over(), schema, body(dollars), None).unwrap_err();
        (e.status, e.message)
    };
    assert_eq!(
        refused(known(), Err("/year: bad".to_string()), Some(0.0)),
        (422, "/year: bad".to_string())
    );
    assert_eq!(refused(known(), Ok(()), Some(0.0)).0, 422);
    assert_eq!(
        refused(target(None), Ok(()), None),
        (409, "dynamic app 'wasm-x' is not runnable: listed only".to_string())
    );
}

#[test]
fn an_app_that_cannot_run_says_why() {
    let listed = vec![json(r#"{"name": "wasm-x", "reason": "no host"}"#)];
    let e = unknown_app("wasm-x", &listed, "default");
    assert_eq!(
        (e.status, e.message.as_str()),
        (409, "dynamic app 'wasm-x' is not runnable: no host")
    );
    let e = unknown_app("other", &listed, "default");
    assert_eq!((e.status, e.message.as_str()), (404, "unknown app 'other'"));
}

#[test]
fn jobs_are_listed_by_a_known_status() {
    for s in ["queued", "running", "waiting", "succeeded", "failed", "cancelled"] {
        assert_eq!(JobStatus::parse(s).unwrap().as_str(), s);
    }
    let plan = list_jobs(&Some("failed".to_string()), 9_999, &Some("t|id".to_string())).unwrap();
    assert_eq!(plan.status, Some(JobStatus::Failed));
    assert_eq!((plan.limit, plan.paged), (500, true));
    assert_eq!(plan.after, Some(("t".to_string(), "id".to_string())));
    let e = list_jobs(&Some("stuck".to_string()), 1, &None).unwrap_err();
    assert_eq!((e.status, e.message.as_str()), (400, "invalid status 'stuck'"));
    assert!(is_terminal(JobStatus::Cancelled) && !is_terminal(JobStatus::Running));
    assert!(!is_terminal(JobStatus::Waiting));
    assert_eq!(bulk_retry_plan(&None, None).unwrap(), (JobStatus::Failed, 500));
    let e = bulk_retry_plan(&Some("running".to_string()), None).unwrap_err();
    assert_eq!(
        (e.status, e.message.as_str()),
        (400, "status must be failed|cancelled, got 'running'")
    );
}

#[test]
fn a_change_of_state_that_did_not_happen_is_explained() {
    assert_eq!(job_state_error(Ok(true), "not running").status, 409);
    assert_eq!(job_state_error(Ok(false), "not running").message, "job not found");
    assert_eq!(job_state_error(Err(Error::Storage("x".to_string())), "y").status, 500);
    assert_eq!(cancel_job(true, None, Ok(true)).unwrap(), json(r#"{"cancelled": true}"#));
    assert_eq!(
        cancel_job(false, Some(CancelKind::User), Ok(true)).unwrap(),
        json(r#"{"cancelled": true, "running": true}"#)
    );
    let suspended = cancel_job(false, Some(CancelKind::ShutdownSuspend), Ok(true)).unwrap();
    assert_eq!(suspended.get("suspended"), Some(&Json::Bool(true)));
    assert_eq!(cancel_job(false, None, Ok(true)).unwrap_err().status, 409);
    assert_eq!(cancel_job(false, None, Ok(false)).unwrap_err().status, 404);
}

#[test]
fn a_running_job_is_shown_with_its_progress() {
    let job = get_job(Some(json(r#"{"id": "x"}"#)), Some(json("5"))).unwrap();
    assert_eq!(job, json(r#"{"id": "x", "progress": 5}"#));
    assert_eq!(get_job(Some(json(r#"{"id": "x"}"#)), None).unwrap(), json(r#"{"id": "x"}"#));
    assert_eq!(get_job(None, None).unwrap_err().message, "job not found");
    assert_eq!(fresh_records(Some(&json(r#"{"new": 2, "changed": 3}"#))), Some(5));
    assert_eq!(fresh_records(Some(&json(r#"{"new": -2}"#))), Some(0));
    assert_eq!(fresh_records(None), None);
}

#[test]
fn opt_add_keeps_unknown_unknown() {
    assert_eq!(opt_add(None, None), None);
    assert_eq!(opt_add(Some(2), None), Some(2));
    assert_eq!(opt_add(None, Some(3)), Some(3));
    assert_eq!(opt_add(Some(2), Some(3)), Some(5));
}

fn budget(a: &Advice) -> Option<f64> {
    a.budget_usd.map(f64::from_bits)
}

#[test]
fn advise_is_deterministic() {
    let a = advise(10, spend(10, 5.0), Some(21), Some(30));
    let b = advise(10, spend(10, 5.0), Some(21), Some(30));
    assert_eq!(a, b);
}

#[test]
fn no_telemetry_means_no_recommendation() {
    let a = advise(0, spend(0, 0.0), None, None);
    assert_eq!((budget(&a), a.cadence.as_str()), (None, "keep"));
    let a = advise(0, spend(0, 3.0), None, None);
    assert_eq!((budget(&a), a.cadence.as_str()), (None, "keep"));
    assert!(a.reason.contains("no yield counts"));
}

#[test]
fn zero_yield_spender_halves_budget_and_slows() {
    let a = advise(10, spend(10, 4.0), Some(0), Some(0));
    assert_eq!(a.cadence.as_str(), "decrease");
    assert_eq!(budget(&a), Some(0.2));
    let a = advise(10, spend(10, 0.0), Some(0), Some(0));
    assert_eq!((budget(&a), a.cadence.as_str()), (None, "decrease"));
}

#[test]
fn hot_source_increases_and_cooled_source_decreases() {
    let a = advise(10, spend(10, 5.0), Some(21), Some(30));
    assert_eq!(a.cadence.as_str(), "increase");
    assert_eq!(budget(&a), Some(0.6), "cost/job 0.5 × 1.2 headroom");
    let a = advise(10, spend(10, 5.0), Some(1), Some(30));
    assert_eq!(a.cadence.as_str(), "decrease");
    let a = advise(10, spend(10, 5.0), Some(7), Some(30));
    assert_eq!(a.cadence.as_str(), "keep");
    let a = advise(10, spend(10, 5.0), None, Some(30));
    assert_eq!(a.cadence.as_str(), "keep");
    assert!(a.reason.contains("no 7d"));
}

#[test]
fn the_pace_agrees_with_the_rates_it_compares() {
    for f7 in 0..60i64 {
        for f30 in 1..200i64 {
            let (r7, r30) = (f7 as f64 / 7.0, f30 as f64 / 30.0);
            let expect = if r7 >= 1.5 * r30 {
                Pace::Hot
            } else if r7 <= 0.5 * r30 {
                Pace::Cooled
            } else {
                Pace::Steady
            };
            assert_eq!(pace_of(f7, f30), expect, "{f7} over 7d, {f30} over 30d");
        }
    }
    assert_eq!(show_rate(21, 7), format!("{:.2}", 21.0 / 7.0));
    assert_eq!(show_rate(1, 7), format!("{:.2}", 1.0 / 7.0));
    assert_eq!(show_rate(29, 30), format!("{:.2}", 29.0 / 30.0));
}

#[test]
fn a_window_holds_every_app_with_spend_or_yield() {
    let costs = vec![
        CostRow { app: "b".to_string(), engine: Engine::Claude, calls: 2 },
        CostRow { app: "b".to_string(), engine: Engine::Other("http".to_string()), calls: 5 },
    ];
    let yields = vec![
        YieldRow {
            app: "a".to_string(),
            dataset: "d".to_string(),
            jobs: 4,
            new: Some(1),
            changed: None,
            unchanged: Some(9),
        },
        YieldRow {
            app: "a".to_string(),
            dataset: "e".to_string(),
            jobs: 6,
            new: Some(2),
            changed: None,
            unchanged: None,
        },
    ];
    let w = window(&costs, &yields).unwrap();
    assert_eq!(w.iter().map(|a| a.app.as_str()).collect::<Vec<_>>(), ["a", "b"]);
    assert_eq!((w[0].jobs_with_yield, w[0].new, w[0].changed), (6, Some(3), None));
    assert_eq!((w[1].calls, w[1].claude_calls), (7, 2));
    assert_eq!(w[1].claude_rows, [0]);
    assert_eq!(app_window(&costs, &yields, "b").unwrap(), w[1]);
}

const TOKEN: u128 = 60_000_000_000;
const SECOND: u64 = 1_000_000_000;

#[test]
fn bucket_allows_burst_then_refuses_until_refill() {
    let mut units = 3 * TOKEN;
    for _ in 0..3 {
        let (u, ok) = bucket_step(units, 0, 3);
        assert!(ok);
        units = u;
    }
    let (u, ok) = bucket_step(units, 0, 3);
    assert!(!ok, "burst exhausted");
    let (_, ok) = bucket_step(u, 20 * SECOND, 3);
    assert!(ok, "refill admits again");
    let (_, ok) = bucket_step(u, 20 * SECOND - 1, 3);
    assert!(!ok, "and not a moment earlier");
}

#[test]
fn bucket_refill_is_capped_at_burst() {
    let (units, ok) = bucket_step(0, 3600 * SECOND, 3);
    assert!(ok);
    assert!(units <= 3 * TOKEN, "refill capped at per_min, got {units}");
    assert_eq!(units, 2 * TOKEN);
}

#[test]
fn every_source_has_a_bucket_of_its_own() {
    let mut limiter = RateLimiter::new();
    assert!(rate_limit_allow(&mut limiter, "a", 1, 0));
    assert!(!rate_limit_allow(&mut limiter, "a", 1, SECOND));
    assert!(rate_limit_allow(&mut limiter, "b", 1, SECOND));
    assert!(rate_limit_allow(&mut limiter, "a", 1, 61 * SECOND));
}

#[test]
fn a_new_source_passes_its_burst_and_no_more() {
    for per_min in [0u32, 1, 3] {
        let mut limiter = RateLimiter::new();
        let passed: Vec<bool> =
            (0..6).map(|_| rate_limit_allow(&mut limiter, "a", per_min, 7 * SECOND)).collect();
        let expected: Vec<bool> = (0..6).map(|i| i < per_min).collect();
        assert_eq!(passed, expected, "{per_min}");
    }
}

#[test]
fn stable_event_id_for_non_uuid_delivery_ids() {
    let a = derived_event_id("s1", "delivery-1");
    let b = derived_event_id("s1", "delivery-1");
    let c = derived_event_id("s1", "delivery-2");
    let d = derived_event_id("s2", "delivery-1");
    assert_eq!(a, b);
    assert_ne!(a, c);
    assert_ne!(a, d);
}

fn source(enabled: bool) -> IngressSource {
    IngressSource { id: "s1".to_string(), name: "ci".to_string(), enabled }
}

fn config() -> IngressConfig {
    IngressConfig { enabled: true, rate_limit_per_min: 60, max_body_bytes: 10, max_skew_secs: 300 }
}

fn headers(signature: Option<&str>, timestamp: Option<&str>) -> SignatureHeaders {
    SignatureHeaders {
        pumper_signature: signature.map(str::to_string),
        hub_signature: None,
        delivery_id: Some("delivery-1".to_string()),
        timestamp: timestamp.map(str::to_string),
    }
}

fn refusal(step: Ingest) -> (u16, String) {
    match step {
        Ingest::Refused(e) => (e.status, e.message),
        other => panic!("expected a refusal, got {other:?}"),
    }
}

#[test]
fn an_ingest_passes_its_gates_in_order() {
    let mut off = config();
    off.enabled = false;
    assert_eq!(refusal(ingest_begin(&off)).0, 409);
    assert_eq!(ingest_begin(&config()), Ingest::NeedSource);
    assert_eq!(refusal(ingest_with_source(None)).0, 404);
    assert_eq!(refusal(ingest_with_source(Some(source(false)))).0, 403);
    assert_eq!(ingest_with_source(Some(source(true))), Ingest::NeedToken(source(true)));

    let ask = |allowed: bool, len: usize, h: SignatureHeaders| {
        ingest_with_token(source(true), allowed, &config(), len, &h, 1_000)
    };
    assert_eq!(refusal(ask(false, 1, headers(Some("x"), None))).0, 429);
    assert_eq!(refusal(ask(true, 11, headers(Some("x"), None))).0, 413);
    assert_eq!(refusal(ask(true, 1, headers(None, None))).1, "missing x-pumper-signature");
    assert_eq!(
        refusal(ask(true, 1, headers(Some("x"), Some("soon")))).1,
        "invalid x-pumper-timestamp"
    );
    assert_eq!(
        refusal(ask(true, 1, headers(Some("x"), Some("1301")))).1,
        "timestamp outside the accepted skew window"
    );
    let claim = match ask(true, 1, headers(Some("sha256=abc"), Some("1300"))) {
        Ingest::NeedVerification(_, claim) => claim,
        other => panic!("{other:?}"),
    };
    assert_eq!(
        claim,
        Claim {
            signature: "abc".to_string(),
            timestamp: Some(1300),
            delivery_id: "delivery-1".to_string(),
        }
    );
    assert_eq!(
        refusal(ingest_with_verification(source(true), &claim, false, b"{}")).1,
        "signature verification failed"
    );
    let (status, message) =
        refusal(ingest_with_verification(source(true), &claim, true, b"{nope"));
    assert_eq!(status, 400);
    let fault = serde_json::from_slice::<Value>(b"{nope").unwrap_err().to_string();
    assert_eq!(message, format!("body is not JSON: {fault}"));
    match ingest_with_verification(source(true), &claim, true, b"{}") {
        Ingest::Emit(s, id) => {
            assert_eq!(s, source(true));
            assert_eq!(id, derived_event_id("s1", "delivery-1"));
        }
        other => panic!("{other:?}"),
    }
}

#[test]
fn a_delivery_id_that_is_a_uuid_is_the_event_id() {
    let claim = |id: &str| Claim {
        signature: "x".to_string(),
        timestamp: None,
        delivery_id: id.to_string(),
    };
    let text = "0195f0f0-0000-7000-8000-000000000000";
    match ingest_with_verification(source(true), &claim(text), true, b"1") {
        Ingest::Emit(_, id) => assert_eq!(show_uuid(&id), text),
        other => panic!("{other:?}"),
    }
    let fresh = |step: Ingest| match step {
        Ingest::Emit(_, id) => id,
        other => panic!("{other:?}"),
    };
    let a = fresh(ingest_with_verification(source(true), &claim(""), true, b"1"));
    let b = fresh(ingest_with_verification(source(true), &claim(""), true, b"1"));
    assert_ne!(a, b);
    for id in [a, b] {
        assert_eq!((id[6] >> 4, id[8] >> 6), (4, 2));
    }
}

#[test]
fn a_source_is_made_with_a_name_and_a_secret() {
    assert_eq!(new_ingress_source(" ", None, "g".to_string()).unwrap_err().status, 400);
    let (name, secret) = new_ingress_source(" ci ", None, "g".to_string()).unwrap();
    assert_eq!((name.as_str(), secret.as_str()), ("ci", "g"));
    let (_, own) = create_ingress_source("ci", Some("mine".to_string())).unwrap();
    assert_eq!(own, "mine");
    let (_, a) = create_ingress_source("ci", None).unwrap();
    let (_, b) = create_ingress_source("ci", None).unwrap();
    assert_ne!(a, b);
    assert_eq!(a.len(), 64);
    assert!(a.chars().all(|c| matches!(c, '0'..='9' | 'a'..='f')));
    assert_eq!((&a[12..13], &a[44..45]), ("4", "4"), "each half is a random UUID");
}

#[test]
fn an_emitted_event_is_answered_with_its_id() {
    let id = [0x11u8; 16];
    assert!(ingest_answer(&id, 42, 3).same_as(&json(
        r#"{"event_id": "11111111-1111-1111-1111-111111111111", "seq": 42, "triggers_fired": 3}"#
    )));
}

#[test]
fn a_bulk_retry_lists_bare_ids() {
    let requeued = vec![([0x22u8; 16], "grants".to_string())];
    assert!(bulk_retry_jobs(&requeued).same_as(&json(
        r#"{"retried": 1, "ids": ["22222222-2222-2222-2222-222222222222"]}"#
    )));
    assert!(bulk_retry_jobs(&[]).same_as(&json(r#"{"retried": 0, "ids": []}"#)));
}

#[test]
fn an_app_is_advised_by_its_own_recent_window() {
    let row = |app: &str, new: Option<i64>| YieldRow {
        app: app.to_string(),
        dataset: "d".to_string(),
        jobs: 2,
        new,
        changed: Some(0),
        unchanged: None,
    };
    let recent = window(&[], &[row("a", Some(70)), row("b", Some(1))]).unwrap();
    let base = window(&[], &[row("a", Some(60)), row("b", Some(300)), row("c", Some(9))]).unwrap();
    let cadences: Vec<Cadence> = base
        .iter()
        .map(|app| app_advice(&recent, app, spend(2, 1.0)).unwrap().cadence)
        .collect();
    assert_eq!(cadences, vec![Cadence::Increase, Cadence::Decrease, Cadence::Keep]);
    let reason = app_advice(&recent, &base[2], spend(2, 1.0)).unwrap().reason;
    assert_eq!(reason, "yielding over 30d but no 7d yield telemetry to compare against");
    let mut over = window(&[], &[row("a", Some(i64::MAX))]).unwrap();
    over[0].changed = Some(1);
    assert!(app_advice(&recent, &over[0], spend(2, 1.0)).is_none());
}

#[test]
fn recommended_budgets_are_always_finite() {
    for &(jobs, cost, f7, f30) in &[
        (1i64, f64::MAX, Some(1i64), Some(1i64)),
        (1, f64::INFINITY, Some(0), Some(0)),
        (0, 5.0, Some(0), Some(0)),
    ] {
        if let Some(b) = budget(&advise(jobs, spend(jobs, cost), f7, f30)) {
            assert!(b.is_finite(), "non-finite budget from ({jobs}, {cost})");
        }
    }
}

#[test]
fn no_budget_is_recommended_without_a_cost_per_job() {
    let figure = |jobs: i64, dollars: f64, fresh: i64| {
        budget(&advise(jobs, spend(jobs, dollars), Some(fresh), Some(fresh)))
    };
    assert_eq!(figure(1, f64::MAX, 1), None);
    assert_eq!(figure(1, f64::INFINITY, 0), None);
    assert_eq!(figure(1, f64::NAN, 1), None);
    assert_eq!(figure(1, -5.0, 1), None);
    assert_eq!(figure(0, 5.0, 0), None);
    assert_eq!(figure(0, 5.0, 1), None);
    assert_eq!(figure(2, 5.0, 0), Some(1.25));
    assert_eq!(figure(2, 5.0, 1), Some(3.0));
}

#[test]
fn a_budget_of_zero_is_never_recommended() {
    let cooled = advise(10, spend(10, 0.0), Some(1), Some(30));
    assert_eq!(cooled.cadence, Cadence::Decrease);
    assert_eq!(budget(&cooled), None);
    assert_eq!(budget(&advise(10, spend(10, 0.0), None, Some(30))), None);
    assert_eq!(budget(&advise(10, spend(10, -0.0), Some(9), Some(30))), None);
    assert_eq!(budget(&advise(10, spend(10, 0.0), Some(0), Some(0))), None);
    let tiny = advise(10, spend(10, 0.0001), Some(0), Some(0));
    assert!(tiny.reason.contains("never to zero"));
    assert_eq!(budget(&tiny), None);
}
