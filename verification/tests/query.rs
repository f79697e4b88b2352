use pumper_routes::clock::Instant;
use pumper_routes::grants::{
    closing_days, closing_page, closing_plan, closing_soon, closing_view, filter_value, grant_filters,
    list_grants, parse_grant_date, GrantRow, GrantsQuery,
};
use pumper_routes::filters::JsonFilter;
use pumper_routes::json::Json;
use pumper_routes::listing::{list_apps, list_profiles, AppEntry, ProfileInfo};
use pumper_routes::paging::{page_answer, page_plan, row_found};
use pumper_routes::preview::{
    body_limit, compile_refusal, extract_preview, fetch_preview_doc, preview_doc, rule_fields,
    FieldStatus, PreviewDoc, PreviewFetch, BODY_LIMIT_BYTES, PREVIEW_BODY_LIMIT_BYTES,
    PREVIEW_MAX_BODY_BYTES,
};
use pumper_routes::provisioner::FetchStrategy;
use pumper_routes::schedules::{create_schedule, schedule_from, CreateScheduleBody};
use pumper_routes::search::{
    create_saved_search, create_watch, default_search_limit, delete_search_docs, search,
    CreateWatchBody, SavedSearchBody,
};
use pumper_routes::triggers::{
    create_trigger, matching_changes, no_fire_reason, replay_delivery, test_trigger,
    ChangeSeen, CreateTriggerBody, FireDecision, SecretHolder, TriggerProbe,
};
use pumper_routes::jobs::Usd;
use pumper_routes::weather::{
    export_entry, export_floor, export_payload, identity_unavailable,
    import_host_weather, import_hosts, legacy_bundle, reset_host, shown_penalty, unreadable_entries, unstored_host,
    weather_entries, BundleOrigin, WeatherEntry,
};
use serde_json::Value;

fn from_value(v: &Value) -> Json {
    match v {
        Value::Null => Json::Null,
        Value::Bool(b) => Json::Bool(*b),
        Value::Number(n) => Json::Number(n.to_string()),
        Value::String(s) => Json::Text(s.clone()),
        Value::Array(items) => Json::Array(items.iter().map(from_value).collect()),
        Value::Object(map) => {
            let mut out = Json::object();
            for (k, v) in map {
                out.set(k, from_value(v));
            }
            out
        }
    }
}

fn json(text: &str) -> Json {
    from_value(&serde_json::from_str::<Value>(text).expect("valid JSON"))
}

fn some(s: &str) -> Option<String> {
    Some(s.to_string())
}

#[test]
fn only_document_routes_get_the_larger_body_ceiling() {
    let operations = [
        "GET /health",
        "POST /apps/{name}/jobs",
        "POST /jobs/retry",
        "POST /schedules",
        "POST /watches",
        "POST /triggers",
        "POST /derived",
        "POST /ingest/{id}",
        "POST /host-weather/import",
        "POST /searches",
        "POST /extract/preview",
        "POST /catalog/reconcile",
        "POST /sources/{id}/state",
    ];
    let large: Vec<&str> =
        operations.into_iter().filter(|op| body_limit(op) > BODY_LIMIT_BYTES).collect();
    assert_eq!(large, ["POST /extract/preview"]);
    assert_eq!(body_limit("POST /extract/preview"), 8 * 1024 * 1024);
    assert_eq!(body_limit("POST /jobs/retry"), 1024 * 1024);
    assert_eq!(PREVIEW_BODY_LIMIT_BYTES, PREVIEW_MAX_BODY_BYTES);
}

#[test]
fn a_preview_takes_exactly_one_document() {
    assert_eq!(preview_doc(some("<p>"), None), Ok(PreviewDoc::Inline("<p>".to_string())));
    match preview_doc(None, some("https://a.example")).unwrap() {
        PreviewDoc::Fetch(q) => assert_eq!(q.strategy, FetchStrategy::Http),
        other => panic!("{other:?}"),
    }
    assert_eq!(
        preview_doc(None, None).unwrap_err().message,
        "provide exactly one of 'html' or 'url'"
    );
    assert_eq!(
        preview_doc(some("a"), some("b")).unwrap_err().message,
        "provide exactly one of 'html' or 'url', not both"
    );
    assert_eq!(
        preview_doc(None, some("ftp://x")).unwrap_err().message,
        "'url' must be http(s)"
    );
}

#[test]
fn a_preview_fetch_stays_within_its_budget() {
    let page = |bytes: usize| PreviewFetch::Page { html: "x".to_string(), bytes };
    assert_eq!(fetch_preview_doc(page(8_388_608)), Ok("x".to_string()));
    let e = fetch_preview_doc(page(8_388_609)).unwrap_err();
    assert_eq!(
        (e.status, e.message.as_str()),
        (413, "fetched body is 8388609 bytes; the preview budget is 8388608 bytes")
    );
    assert_eq!(
        fetch_preview_doc(PreviewFetch::TimedOut).unwrap_err().message,
        "fetch exceeded the 15s preview budget"
    );
    assert_eq!(
        fetch_preview_doc(PreviewFetch::Failed("dns".to_string())).unwrap_err().message,
        "failed to fetch url: dns"
    );
}

#[test]
fn a_preview_reports_all_bad_fields_and_counts_the_good_ones() {
    let fields = rule_fields(&json(r#"{"b": 1, "a": {"type": "css"}}"#)).unwrap();
    assert_eq!(fields[0].0, "a");
    assert_eq!(fields.len(), 2);
    assert_eq!(rule_fields(&json("[]")).unwrap_err().status, 400);
    let refusal = compile_refusal(&[
        ("a".to_string(), Err("bad selector".to_string())),
        ("b".to_string(), Ok(())),
        ("c".to_string(), Err("no type".to_string())),
    ])
    .unwrap();
    assert_eq!(
        refusal,
        json(
            r#"{"error": "rule compilation failed", "code": "bad_request", "fields": [
                {"field": "a", "error": "bad selector"}, {"field": "c", "error": "no type"}]}"#
        )
    );
    assert_eq!(compile_refusal(&[("a".to_string(), Ok(()))]), None);
    let statuses = [FieldStatus::Matched, FieldStatus::Empty, FieldStatus::Matched, FieldStatus::Error];
    let good = [("a".to_string(), Ok(()))];
    let (status, answer) = extract_preview(&good, &json(r#"{"a": 1}"#), &json("{}"), &statuses);
    assert_eq!(status, 200);
    assert_eq!(answer.get("values"), Some(&json(r#"{"a": 1}"#)));
    assert_eq!(answer.get("fields_matched"), Some(&Json::integer(2)));
    assert_eq!(answer.get("fields_total"), Some(&Json::integer(4)));
    let bad = [("a".to_string(), Ok(())), ("b".to_string(), Err("no type".to_string()))];
    let (status, answer) = extract_preview(&bad, &json(r#"{"a": 1}"#), &json("{}"), &statuses);
    assert_eq!((status, Some(answer)), (400, compile_refusal(&bad)));
}

fn schedule(cron: &str, timezone: Option<&str>, policy: Option<&str>) -> CreateScheduleBody {
    CreateScheduleBody {
        app: "grants-gov".to_string(),
        cron: cron.to_string(),
        params: None,
        priority: None,
        timezone: timezone.map(str::to_string),
        misfire_policy: policy.map(str::to_string),
        max_attempts: Some(99),
    }
}

#[test]
fn a_schedule_needs_an_app_an_expression_a_zone_and_a_policy() {
    let s = create_schedule(schedule("0 30 6 * * *", Some("America/New_York"), None), true).unwrap();
    assert_eq!(s.misfire_policy, "fire_once");
    assert_eq!((s.priority, s.max_attempts), (0, Some(20)));
    assert_eq!(s.params, Json::Null);
    let e = create_schedule(schedule("* * * * * *", None, None), false).unwrap_err();
    assert_eq!((e.status, e.message.as_str()), (404, "unknown app 'grants-gov'"));
    let e = create_schedule(schedule("every tuesday", None, None), true).unwrap_err();
    assert_eq!(e.status, 400);
    assert!(e.message.starts_with("invalid cron: "), "{}", e.message);
    assert!(e.message.len() > "invalid cron: ".len());
    let e = create_schedule(schedule("0 0 * * * *", Some("Mars/Olympus"), None), true).unwrap_err();
    assert_eq!(e.message, "unknown timezone 'Mars/Olympus'");
    let e = create_schedule(schedule("0 0 * * * *", None, Some("maybe")), true).unwrap_err();
    assert_eq!(
        e.message,
        "unknown misfire_policy 'maybe' (expected 'fire_once' or 'skip')"
    );
    let s = schedule_from(schedule("x", Some("y"), Some("skip")), true, Ok(()), true).unwrap();
    assert_eq!((s.cron.as_str(), s.misfire_policy.as_str()), ("x", "skip"));
}

#[test]
fn a_search_needs_something_to_look_for() {
    assert_eq!(default_search_limit(), 20);
    assert_eq!(search("grants", 0), Ok(1));
    assert_eq!(search("grants", 1_000), Ok(100));
    assert_eq!(search("grants", 20), Ok(20));
    assert_eq!(search("  ", 20).unwrap_err().message, "query 'q' is required");
    let body = |query: &str, url: &str| SavedSearchBody {
        query: query.to_string(),
        app: None,
        dataset: None,
        url: url.to_string(),
        secret: None,
    };
    assert_eq!(create_saved_search(body(" q ", "http://x")).unwrap().query, "q");
    assert_eq!(create_saved_search(body("", "http://x")).unwrap_err().message, "'query' is required");
    assert_eq!(create_saved_search(body("q", "x")).unwrap_err().message, "url must be http(s)");
    assert_eq!(delete_search_docs(&["a".to_string()]), Ok(1));
    assert_eq!(delete_search_docs(&[]).unwrap_err().message, "'ids' must be non-empty");
    let watch = |dataset: Option<&str>, url: &str| CreateWatchBody {
        app: "a".to_string(),
        dataset: dataset.map(str::to_string),
        url: url.to_string(),
        secret: None,
    };
    assert_eq!(create_watch(&watch(None, "https://x"), true), Ok("*".to_string()));
    assert_eq!(create_watch(&watch(Some("d"), "https://x"), true), Ok("d".to_string()));
    assert_eq!(create_watch(&watch(None, "https://x"), false).unwrap_err().status, 404);
    assert_eq!(create_watch(&watch(None, "gopher://x"), true).unwrap_err().status, 400);
}

fn trigger(kind: &str) -> CreateTriggerBody {
    CreateTriggerBody {
        name: None,
        source_kind: kind.to_string(),
        source_app: "grants".to_string(),
        source_dataset: None,
        on_change: None,
        on_status: None,
        target_app: "digest".to_string(),
        params: None,
        budget_usd: None,
        priority: None,
        max_attempts: None,
    }
}

#[test]
fn a_trigger_listens_to_one_thing() {
    let t = create_trigger(trigger("dataset"), true).unwrap();
    assert_eq!(
        (t.source_dataset.as_deref(), t.on_change.as_deref(), t.on_status),
        (Some("*"), Some("fresh"), None)
    );
    assert_eq!((t.params, t.max_attempts), (json("{}"), 1));
    let t = create_trigger(trigger("job"), true).unwrap();
    assert_eq!((t.source_dataset, t.on_status.as_deref()), (None, Some("succeeded")));

    let refusal = |change: fn(&mut CreateTriggerBody)| {
        let mut body = trigger("dataset");
        change(&mut body);
        let e = create_trigger(body, true).unwrap_err();
        (e.status, e.message)
    };
    assert_eq!(refusal(|b| b.on_change = some("odd")), (400, "invalid on_change 'odd'".to_string()));
    assert_eq!(
        refusal(|b| b.on_status = some("failed")).1,
        "on_status is only valid for source_kind 'job'"
    );
    assert_eq!(
        refusal(|b| {
            b.source_kind = "job".to_string();
            b.on_status = some("odd");
        })
        .1,
        "invalid on_status 'odd'"
    );
    assert_eq!(
        refusal(|b| {
            b.source_kind = "job".to_string();
            b.on_change = some("new");
        })
        .1,
        "source_dataset/on_change are only valid for source_kind 'dataset'"
    );
    assert_eq!(
        refusal(|b| b.source_kind = "clock".to_string()).1,
        "invalid source_kind 'clock' (dataset | job)"
    );
    assert_eq!(
        refusal(|b| b.budget_usd =
            Some(Usd { bits: 0f64.to_bits(), shown: "0".to_string() }))
        .0,
        422
    );
    let e = create_trigger(trigger("dataset"), false).unwrap_err();
    assert_eq!((e.status, e.message.as_str()), (404, "unknown target app 'digest'"));
}

#[test]
fn a_dry_run_says_why_it_would_not_fire() {
    let change = |covered: bool, of_kind: bool| ChangeSeen { covered, of_kind };
    let base = || TriggerProbe {
        has_source: true,
        decision: FireDecision::Fire,
        on_dataset: true,
        changes: vec![change(true, false), change(true, true), change(false, true)],
        status_matches: false,
    };
    assert_eq!(no_fire_reason(&base()), None);
    let reason = |p: TriggerProbe| no_fire_reason(&p).unwrap();
    assert_eq!(
        reason(TriggerProbe { has_source: false, ..base() }),
        "no source job of that app exists yet"
    );
    assert_eq!(
        reason(TriggerProbe { decision: FireDecision::SkipCycle, ..base() }),
        "cycle: trigger already in the source job's chain"
    );
    assert_eq!(
        reason(TriggerProbe { decision: FireDecision::SkipDepth, ..base() }),
        "max chain depth reached"
    );
    assert_eq!(
        reason(TriggerProbe { changes: vec![change(true, false)], ..base() }),
        "latest source run produced no matching changes"
    );
    assert_eq!(
        reason(TriggerProbe { on_dataset: false, ..base() }),
        "latest source job's status does not match on_status"
    );
    let answer = test_trigger(&base(), false, "digest", &[0; 16], &json("{}")).unwrap();
    assert_eq!(answer.get("would_fire"), Some(&Json::Bool(true)));
    assert_eq!(
        answer.text_at("source_job_id"),
        Some("00000000-0000-0000-0000-000000000000")
    );
    assert_eq!(test_trigger(&base(), true, "digest", &[0; 16], &json("{}")), None);
    let quiet = TriggerProbe { changes: vec![], ..base() };
    for fire in [false, true] {
        assert_eq!(
            test_trigger(&quiet, fire, "digest", &[0; 16], &json("{}")),
            Some(json(
                r#"{"would_fire": false,
                    "reason": "latest source run produced no matching changes"}"#
            ))
        );
    }
    assert_eq!(matching_changes(&base().changes), [1]);
}

#[test]
fn a_delivery_is_signed_again_by_its_source() {
    let id = "0195f0f0-0000-7000-8000-000000000000";
    match replay_delivery("job", id).unwrap() {
        SecretHolder::Job(bytes) => assert_eq!(bytes[0], 1),
        other => panic!("{other:?}"),
    }
    assert_eq!(replay_delivery("job", "nope").unwrap_err().status, 500);
    assert_eq!(replay_delivery("watch", "w1"), Ok(SecretHolder::Watch("w1".to_string())));
}

fn entry(penalty_ms: i64) -> WeatherEntry {
    WeatherEntry {
        host: "a.example".to_string(),
        preferred_tier: some("browser"),
        http_strikes: 3,
        penalty_ms,
        observations: 9,
        challenge_fingerprints: vec!["x".to_string()],
        updated_at: some("2026-01-01T00:00:00Z"),
    }
}

#[test]
fn a_bundle_never_understates_a_penalty() {
    assert_eq!(export_floor(None), Ok(3));
    assert_eq!(export_floor(Some(0)), Ok(0));
    assert_eq!(export_floor(Some(-1)).unwrap_err().message, "min_observations must be >= 0");
    assert_eq!(export_entry(entry(500), 200).penalty_ms, 500);
    let live = export_entry(entry(500), 900);
    assert_eq!(live.penalty_ms, 900);
    assert!(live.challenge_fingerprints.is_empty());
    assert_eq!(shown_penalty(u128::MAX), i64::MAX);
    let payload = export_payload(3, &[live]);
    let bundle = legacy_bundle(3, &[export_entry(entry(1), 0)], "now", "node");
    assert_eq!(payload.get("min_observations"), Some(&Json::integer(3)));
    assert_eq!(bundle.text_at("schema"), Some("pumper.host-weather/1"));
    match bundle.get("entries") {
        Some(Json::Array(list)) => assert_eq!(list[0].text_at("preferred_tier"), Some("browser")),
        other => panic!("{other:?}"),
    }
    assert_eq!(identity_unavailable("x").message, "node identity unavailable: x");
}

#[test]
fn a_bundle_is_admitted_once_per_host() {
    let hosts: Vec<String> =
        [" A.example ", "b.example", "a.EXAMPLE"].iter().map(|s| s.to_string()).collect();
    let out = import_hosts(&hosts).unwrap();
    assert_eq!(
        out,
        [
            ("a.example".to_string(), true),
            ("b.example".to_string(), true),
            ("a.example".to_string(), false),
        ]
    );
    assert_eq!(import_hosts(&[String::new()]).unwrap_err().status, 400);
    let e = import_hosts(&["x".to_string(), "  ".to_string()]).unwrap_err();
    assert_eq!((e.status, e.message.as_str()), (400, "bundle entry with an empty host"));
    assert_eq!(import_hosts(&[]).unwrap_err().status, 400);
    let many = vec!["x".to_string(); 10_001];
    assert_eq!(
        import_hosts(&many).unwrap_err().message,
        "bundle has 10001 entries; the import ceiling is 10000"
    );
    assert_eq!(weather_entries(&json(r#"{"entries": [1]}"#)), Ok(json("[1]")));
    assert_eq!(
        weather_entries(&json("{}")),
        Err("bundle payload has no `entries` array".to_string())
    );
    assert_eq!(unreadable_entries("x").message, "bundle `entries` is unreadable: x");
    let origin =
        || BundleOrigin { node_id: some("n1"), verified: true, schema: "weather/v2".to_string() };
    let plan = |host: &str| Some(json(&format!(r#"{{"host": "{host}"}}"#)));
    let plans = [plan("a.example"), None, plan("late")];
    let report = import_host_weather(false, &origin(), &hosts, &plans).unwrap();
    assert!(report.same_as(&json(
        r#"{"applied": false, "source_node_id": "n1", "verified": true, "schema": "weather/v2",
            "considered": 3, "changed": 1, "noops": 2, "actions": [{"host": "a.example"}]}"#
    )));
    let blank = ["x".to_string(), " ".to_string()];
    let e = import_host_weather(true, &origin(), &blank, &[None, None]).unwrap_err();
    assert_eq!((e.status, e.message.as_str()), (400, "bundle entry with an empty host"));
    assert_eq!(import_host_weather(true, &origin(), &[], &[]).unwrap_err().status, 400);
}

#[test]
fn a_host_without_a_profile_shows_its_live_penalty() {
    let shown = unstored_host("a.example", 250_999_999).unwrap();
    assert_eq!(shown.get("penalty_ms"), Some(&Json::integer(250)));
    assert_eq!(shown.get("preferred_tier"), Some(&Json::Null));
    let brief = unstored_host("a.example", 1).unwrap();
    assert_eq!(brief.get("penalty_ms"), Some(&Json::integer(0)), "under a millisecond, yet live");
    let longest = unstored_host("a.example", u128::MAX).unwrap();
    assert_eq!(longest.get("penalty_ms"), Some(&Json::integer(i64::MAX)));
    assert_eq!(unstored_host("a.example", 0).unwrap_err().message, "unknown host");
    assert!(reset_host("a.example", false, true).is_ok());
    assert_eq!(reset_host("a.example", false, false).unwrap_err().status, 404);
}

fn grants() -> GrantsQuery {
    GrantsQuery {
        status: some(" open "),
        agency: some("health"),
        source: some("  "),
        closing_before: some("2026-12-31"),
        closing_after: None,
        min_award: some("1000"),
    }
}

#[test]
fn grants_are_filtered_by_what_is_set() {
    assert_eq!(filter_value(&some(" x ")), some("x"));
    assert_eq!(filter_value(&some(" ")), None);
    let filters = grant_filters(&grants()).unwrap();
    assert_eq!(
        filters,
        vec![
            JsonFilter::Eq { path: "$.status".to_string(), value: "open".to_string() },
            JsonFilter::Contains { path: "$.agency".to_string(), value: "health".to_string() },
            JsonFilter::Lte {
                path: "$.close_date".to_string(),
                value: "2026-12-31".to_string(),
            },
            JsonFilter::NumGteAny {
                paths: vec!["$.award_ceiling".to_string(), "$.total_funding".to_string()],
                value: "1000".to_string(),
            },
        ]
    );
    let mut bad = grants();
    bad.closing_after = some("2026-13-01");
    let e = list_grants(&bad, 10, &None).unwrap_err();
    assert_eq!(
        (e.status, e.message.as_str()),
        (400, "'closing_after' must be a YYYY-MM-DD date, got '2026-13-01'")
    );
    let (_, plan) = list_grants(&grants(), 9_999, &some("")).unwrap();
    assert_eq!((plan.limit, plan.paged, plan.after), (500, true, None));
}

#[test]
fn a_grant_date_is_canonical_or_refused() {
    assert!(parse_grant_date("2026-02-28", "f").is_ok());
    for bad in ["2026-02-30", "2026-2-3", "+2026-02-03", "26-02-03", " 2026-02-03", "tomorrow", ""] {
        assert_eq!(parse_grant_date(bad, "f").unwrap_err().status, 400, "{bad:?}");
    }
}

fn grant(key: &str, close: &str) -> GrantRow {
    let mut data = Json::object();
    data.set("close_date", Json::text(close));
    GrantRow { key: key.to_string(), data }
}

#[test]
fn the_closing_window_is_read_to_its_end() {
    let last = || Some(("2026-01-01T00:00:00Z".to_string(), "k".to_string()));
    assert_eq!(closing_page(1_000, last()), last());
    assert_eq!(closing_page(999, last()), None);
    assert_eq!(closing_page(0, None), None);
}

#[test]
fn what_closes_soon_is_sorted_capped_and_counted() {
    assert_eq!((closing_days(None), closing_days(Some(0)), closing_days(Some(999))), (14, 1, 365));
    let today = parse_grant_date("2026-12-25", "f").unwrap();
    let rows = vec![
        grant("c", "2026-12-30"),
        grant("a", "2026-12-25"),
        GrantRow { key: "x".to_string(), data: json("[]") },
        grant("d", "2026-12-30"),
        grant("junk", "soon"),
        grant("past", "2026-12-24"),
        grant("b", "2026-12-27"),
        grant("far", "2027-01-09"),
    ];
    let page = closing_soon(&rows, 14, today);
    assert_eq!(page.get("days"), Some(&Json::integer(14)));
    assert_eq!(page.get("count"), Some(&Json::integer(4)));
    let shown = match page.get("grants") {
        Some(Json::Array(list)) => list,
        other => panic!("{other:?}"),
    };
    let keys: Vec<&str> = shown.iter().map(|g| g.text_at("key").unwrap()).collect();
    assert_eq!(keys, ["a", "b", "c", "d"], "soonest first, one day in the order it came");
    assert_eq!(shown[1].get("days_left"), Some(&Json::integer(2)));

    let many: Vec<GrantRow> = (0..201).map(|i| grant(&format!("k{i}"), "2026-12-26")).collect();
    let page = closing_view(&many, &vec![Some(today + 1); 201], 14, today);
    assert_eq!(page.get("count"), Some(&Json::integer(201)));
    match page.get("grants") {
        Some(Json::Array(list)) => assert_eq!(list.len(), 200),
        other => panic!("{other:?}"),
    }
    assert!(closing_plan(None, today).is_some());
}

#[test]
fn apps_are_listed_by_name_and_only_runnable_ones_are_tools() {
    let app = |name: &str, ready: bool| AppEntry {
        name: name.to_string(),
        description: "d".to_string(),
        schedule: None,
        requires: vec![("env:KEY".to_string(), ready)],
        default_params: json("{}"),
        cost_class: "free".to_string(),
        output_shape: Json::Null,
        has_params_schema: false,
        tool: json(&format!("{{\"name\": \"{name}\"}}")),
    };
    let apps = vec![app("b", false), app("a", true)];
    let dynamic = vec![json(r#"{"name": "w", "dynamic": true}"#)];
    let page = list_apps(None, &apps, &dynamic).unwrap();
    match page.get("apps") {
        Some(Json::Array(list)) => {
            let names: Vec<&str> = list.iter().map(|a| a.text_at("name").unwrap()).collect();
            assert_eq!(names, ["a", "b", "w"]);
            assert_eq!(list[0].get("ready"), Some(&Json::Bool(true)));
            assert_eq!(list[1].get("ready"), Some(&Json::Bool(false)));
            assert_eq!(list[1].get("requires"), Some(&json(r#"["env:KEY"]"#)));
        }
        other => panic!("{other:?}"),
    }
    let tools = list_apps(Some("tools"), &apps, &dynamic).unwrap();
    assert_eq!(tools, json(r#"{"tools": [{"name": "a"}, {"name": "b"}]}"#));
    assert_eq!(
        list_apps(Some("xml"), &apps, &dynamic).unwrap_err().message,
        "unknown format 'xml' (omit for the app listing, or 'tools')"
    );
}

#[test]
fn profiles_are_listed_by_name_with_their_newest_stamp() {
    let at = |secs: i64| Instant::new(secs, 0);
    let profile = |name: &str, touched: Vec<Option<Instant>>| ProfileInfo {
        name: name.to_string(),
        has_cookies: true,
        has_browser_dir: false,
        touched,
    };
    let page = list_profiles(&[
        profile("work", vec![at(0), None, at(1_767_225_600)]),
        profile("home", vec![None]),
    ]);
    match page.get("profiles") {
        Some(Json::Array(list)) => {
            assert_eq!(list[0].text_at("name"), Some("home"));
            assert_eq!(list[0].get("last_used"), Some(&Json::Null));
            assert_eq!(list[1].text_at("last_used"), Some("2026-01-01T00:00:00+00:00"));
        }
        other => panic!("{other:?}"),
    }
}

#[test]
fn a_list_has_two_shapes() {
    let plan = page_plan(0, 500, &None);
    assert_eq!((plan.limit, plan.paged, plan.after), (1, false, None));
    let plan = page_plan(50, 500, &some("t|id"));
    assert_eq!(plan.after, Some(("t".to_string(), "id".to_string())));
    assert!(page_plan(50, 500, &some("junk")).after.is_none());
    let rows = || vec![json("1")];
    assert_eq!(page_answer("hosts", rows(), false, &None), json(r#"{"hosts": [1]}"#));
    assert_eq!(
        page_answer("hosts", rows(), true, &some("c")),
        json(r#"{"items": [1], "next_cursor": "c"}"#)
    );
    assert_eq!(row_found(true, "watch"), Ok(()));
    assert_eq!(row_found(false, "watch").unwrap_err().message, "watch not found");
}
