use pumper_routes::cursor::{
    bad_cursor_message, echo_arg, keyset_cursor, number_cursor, parse_cursor, parse_cursor_arg,
    parse_cursor_i64, parse_cursor_i64_arg, text_cursor,
};
use pumper_routes::error::{
    client_facing, default_limit, error_code, panic_message, ApiError, Error,
    PanicPayload, INTERNAL_MESSAGE, PROFILE_MESSAGE, REPLAY_MISS_MESSAGE, UPSTREAM_MESSAGE,
};

#[test]
fn every_status_a_handler_emits_has_a_code() {
    let expected = [
        (400, "bad_request"),
        (401, "unauthorized"),
        (402, "budget_exhausted"),
        (403, "forbidden"),
        (404, "not_found"),
        (409, "conflict"),
        (413, "too_large"),
        (422, "unprocessable"),
        (428, "confirmation_required"),
        (429, "rate_limited"),
        (500, "internal"),
        (502, "bad_gateway"),
        (503, "unavailable"),
    ];
    for (status, code) in expected {
        assert_eq!(error_code(status), code, "wrong code for {status}");
        assert_eq!(ApiError::fixed(status, "x").code(), code);
    }
}

#[test]
fn an_unlisted_status_reads_internal() {
    assert_eq!(error_code(418), "internal");
    assert_eq!(error_code(504), "internal");
}

#[test]
fn refusals_are_not_reported_as_internal_errors() {
    assert_eq!(error_code(403), "forbidden");
    assert_eq!(error_code(429), "rate_limited");
    assert_eq!(error_code(503), "unavailable");
}

#[test]
fn internal_failures_are_generic_not_raw_store_or_path_text() {
    let leaky = [
        Error::Io("opening /srv/pumper/data/pumper.db: permission denied".to_string()),
        Error::Other("GET https://api.vendor.example/v2/x?api_key=s3cret failed".to_string()),
        Error::Storage("no rows returned by a query that expected to return at least one row".to_string()),
        Error::Config("missing key in /etc/pumper/config.toml".to_string()),
    ];
    for e in leaky {
        let raw = match &e {
            Error::Io(m) | Error::Other(m) | Error::Storage(m) | Error::Config(m) => m.clone(),
            _ => unreachable!(),
        };
        let err = client_facing(&e);
        assert_eq!(err.status, 500);
        assert_eq!(err.message, INTERNAL_MESSAGE, "the body must not vary with the cause");
        assert_ne!(err.message, raw);
        for leak in ["pumper.db", "api_key", "s3cret", "/srv/", "/etc/", "sqlx"] {
            assert!(!err.message.contains(leak), "{leak:?} reached the client in {:?}", err.message);
        }
    }
}

#[test]
fn the_other_internal_variants_are_generic_too() {
    for e in [
        Error::Parse("bad toml in /etc/x".to_string()),
        Error::App("app blew up".to_string()),
        Error::Json("expected value at line 1".to_string()),
    ] {
        let err = client_facing(&e);
        assert_eq!((err.status, err.message.as_str()), (500, INTERNAL_MESSAGE));
    }
}

#[test]
fn upstream_engine_failures_are_502_not_500() {
    for e in [
        Error::Http("connect https://slow.example/a?k=v: timed out".to_string()),
        Error::Browser("chrome crashed rendering https://x.example".to_string()),
        Error::Claude("cli exited 1".to_string()),
    ] {
        let err = client_facing(&e);
        assert_eq!(err.status, 502);
        assert_eq!(error_code(err.status), "bad_gateway");
        assert_eq!(err.message, UPSTREAM_MESSAGE);
        assert!(!err.message.contains("example"), "no upstream host: {:?}", err.message);
    }
}

#[test]
fn client_fault_variants_are_4xx_not_500() {
    let e = client_facing(&Error::BadRequest("bad filter".to_string()));
    assert_eq!(e.status, 400);
    assert_eq!(e.message, "bad filter", "a validation message is the caller's own");

    let e = client_facing(&Error::Transact("live submit is refused in this slice".to_string()));
    assert_eq!(e.status, 422);
    assert!(e.message.contains("live submit"), "the refusal explains itself");

    let e = client_facing(&Error::BudgetExhausted("$0.50 ceiling reached".to_string()));
    assert_eq!(e.status, 402);
    assert_eq!(error_code(e.status), "budget_exhausted");
    assert!(e.message.contains("0.50"), "the ceiling is the whole explanation");

    let e = client_facing(&Error::Profile(
        "opening /srv/pumper/data/profiles/x/cookies.json: denied".to_string(),
    ));
    assert_eq!(e.status, 400);
    assert_eq!(e.message, PROFILE_MESSAGE);
    assert!(e.message.contains("'profile'"), "it names the parameter at fault");

    let e = client_facing(&Error::ReplayMiss(
        "no recorded response in /srv/pumper/data/cassettes/a.json".to_string(),
    ));
    assert_eq!(e.status, 409);
    assert_eq!(e.message, REPLAY_MISS_MESSAGE);
    assert!(!e.message.contains("/srv/"), "no cassette path: {:?}", e.message);
}

#[test]
fn row_not_found_stays_500_not_a_fabricated_404() {
    let err = client_facing(&Error::Storage("RowNotFound".to_string()));
    assert_eq!(err.status, 500);
    assert_ne!(err.status, 404);
}

#[test]
fn panic_message_reads_both_payload_shapes_not_just_literals() {
    let literal = PanicPayload::Literal("index out of bounds");
    assert_eq!(panic_message(&literal), "index out of bounds");

    let formatted = PanicPayload::Formatted(format!("row {} missing", 7));
    assert_eq!(panic_message(&formatted), "row 7 missing");

    assert_eq!(panic_message(&PanicPayload::Opaque), "non-string panic payload");
}

#[test]
fn the_default_page_holds_fifty_rows() {
    assert_eq!(default_limit(), 50);
}

#[test]
fn keyset_cursor_only_on_a_full_page_from_the_last_item() {
    let encode = |s: &&str| s.to_string();
    assert_eq!(keyset_cursor(&["a", "b", "c"], 3, encode), Some("c".into()));
    assert_eq!(keyset_cursor(&["a", "b"], 3, encode), None);
    assert_eq!(keyset_cursor(&[] as &[&str], 3, encode), None);
}

#[test]
fn parse_cursor_round_trips_and_treats_blank_as_first_page() {
    assert_eq!(parse_cursor(""), None);
    assert_eq!(parse_cursor("   "), None);
    assert_eq!(
        parse_cursor("2026-07-26T00:00:00.000000Z|job-42"),
        Some(("2026-07-26T00:00:00.000000Z".into(), "job-42".into()))
    );
    assert_eq!(parse_cursor("garbage"), None);
}

#[test]
fn a_cursor_that_was_handed_out_reads_back() {
    let c = text_cursor("2026-07-26T00:00:00.000000Z", "a|b");
    assert_eq!(c, "2026-07-26T00:00:00.000000Z|a|b");
    assert_eq!(
        parse_cursor(&c),
        Some(("2026-07-26T00:00:00.000000Z".into(), "a|b".into()))
    );
    let n = number_cursor("2026-07-26T00:00:00.000000Z", -7);
    assert_eq!(n, "2026-07-26T00:00:00.000000Z|-7");
    assert_eq!(
        parse_cursor_i64_arg(&n).unwrap(),
        Some(("2026-07-26T00:00:00.000000Z".into(), -7))
    );
}

#[test]
fn the_lenient_number_cursor_pages_from_the_top_on_junk() {
    assert_eq!(parse_cursor_i64("t|41"), Some(("t".into(), 41)));
    assert_eq!(parse_cursor_i64("t|abc"), None);
    assert_eq!(parse_cursor_i64("t|9223372036854775808"), None);
    assert_eq!(parse_cursor_i64(""), None);
}

#[test]
fn error_bad_cursor_400_not_page_one() {
    let err = parse_cursor_arg("garbage").expect_err("a separator-less cursor must not pass");
    assert_eq!(err.status, 400);
    assert!(
        err.message.contains("next_cursor") && err.message.contains("<created_at>|<tiebreak>"),
        "the 400 must name the expected format, not just say 'invalid': {}",
        err.message
    );
    assert!(err.message.contains("'garbage'"), "and echo what was sent: {}", err.message);
}

#[test]
fn blank_cursor_is_the_first_page_not_an_error() {
    assert_eq!(parse_cursor_arg("").unwrap(), None);
    assert_eq!(parse_cursor_arg("   ").unwrap(), None);
    assert_eq!(
        parse_cursor_arg("2026-07-26T00:00:00.000000Z|41").unwrap(),
        Some(("2026-07-26T00:00:00.000000Z".into(), "41".into()))
    );
}

#[test]
fn bad_cursor_message_truncates_and_strips_control_chars() {
    let err = parse_cursor_arg(&"z".repeat(5_000)).expect_err("still malformed");
    assert!(err.message.len() < 400, "error body stayed bounded: {}", err.message.len());
    let err = parse_cursor_arg("bad\ncursor\u{0}").expect_err("still malformed");
    assert!(!err.message.contains('\n') && !err.message.contains('\u{0}'));
}

#[test]
fn an_echoed_argument_is_bounded_and_printable() {
    assert_eq!(echo_arg("short"), "'short'");
    assert_eq!(echo_arg("a\u{7}b"), "'ab'");
    let long = echo_arg(&"x".repeat(100));
    assert_eq!(long, format!("'{}…'", "x".repeat(64)));
    assert!(bad_cursor_message("\u{1b}[0m").contains("'[0m'"));
}

#[test]
fn datasets_bad_cursor_400_not_page_one() {
    for bad in ["garbage", "no-separator", "2026-07-26T00:00:00.000000Z|abc", "|"] {
        let err = parse_cursor_i64_arg(bad)
            .err()
            .unwrap_or_else(|| panic!("{bad:?} must be rejected, not silently paged from the top"));
        assert_eq!(err.status, 400, "for {bad:?}");
        assert!(err.message.contains("next_cursor"), "names the format for {bad:?}");
    }
}

#[test]
fn numeric_tiebreak_required_but_a_real_cursor_round_trips() {
    assert_eq!(parse_cursor_i64_arg("").unwrap(), None);
    assert_eq!(
        parse_cursor_i64_arg("2026-07-26T00:00:00.000000Z|41").unwrap(),
        Some(("2026-07-26T00:00:00.000000Z".into(), 41))
    );
    assert_eq!(
        parse_cursor_i64_arg("2026-07-26T00:00:00.000000Z|-1").unwrap(),
        Some(("2026-07-26T00:00:00.000000Z".into(), -1))
    );
}
