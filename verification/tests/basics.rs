use pumper_routes::clock::{age_seconds, days_before, parse_since, whole_days, Instant};
use pumper_routes::grants::{closing_plan, parse_grant_date};
use pumper_routes::ident::{digest_text, hex, show_uuid};
use pumper_routes::json::Json;
use pumper_routes::number::{parse_i64, parse_u64, show_i64, show_u64, spells_float};
use pumper_routes::order::{rank_of, Rank};
use pumper_routes::text::{is_blank, is_control, is_whitespace, trim};
use pumper_routes::weather::host_name;

#[test]
fn white_space_and_control_are_those_of_the_standard_library() {
    for c in '\0'..=char::MAX {
        assert_eq!(is_whitespace(c), c.is_whitespace(), "{c:?}");
        assert_eq!(is_control(c), c.is_control(), "{c:?}");
    }
}

#[test]
fn trimming_agrees_with_the_standard_library() {
    for s in ["", "  ", " a ", "a", "\u{3000}x y\n", "\u{200b}x"] {
        assert_eq!(trim(s), s.trim());
        assert_eq!(is_blank(s), s.trim().is_empty());
    }
}

#[test]
fn integers_read_and_write_as_the_standard_library_does() {
    for s in [
        "", "+", "-", "0", "-0", "+5", "007", "18446744073709551615", "18446744073709551616",
        "9223372036854775807", "-9223372036854775808", "-9223372036854775809", "1_0", " 1", "1 ",
        "١",
    ] {
        assert_eq!(parse_u64(s), s.parse::<u64>().ok(), "{s:?}");
        assert_eq!(parse_i64(s), s.parse::<i64>().ok(), "{s:?}");
    }
    for n in [0u64, 9, 10, 1234567890, u64::MAX] {
        assert_eq!(show_u64(n), n.to_string());
    }
    for n in [0i64, -1, i64::MIN, i64::MAX, 42] {
        assert_eq!(show_i64(n), n.to_string());
        assert_eq!(parse_i64(&show_i64(n)), Some(n));
    }
}

#[test]
fn floats_are_spelled_as_the_standard_library_reads_them() {
    for s in [
        "", ".", "1", "1.", ".5", "1e5", "1E-5", "1e", "e5", "+1.5", "-0", "--1", "inf", "-INF",
        "Infinity", "infinit", "nan", "+NaN", "0x10", "1_000", " 1", "1 ", "1e+", "1.5e+10", "+",
        "1..2", "١",
    ] {
        assert_eq!(spells_float(s), s.parse::<f64>().is_ok(), "{s:?}");
    }
}

#[test]
fn digests_and_identifiers_are_written_in_hex() {
    assert_eq!(hex(&[0x00, 0xff, 0x1a]), "00ff1a");
    assert_eq!(
        digest_text("abc"),
        "ba7816bf8f01cfea414140de5dae2223b00361a396177a9cb410ff61f20015ad"
    );
    let id = uuid::Uuid::parse_str("0195f0f0-89ab-7cde-8f01-23456789abcd").unwrap();
    assert_eq!(show_uuid(id.as_bytes()), id.to_string());
}

#[test]
fn instants_are_read_and_aged_as_chrono_does() {
    let now = parse_since(Some("2026-01-02T00:00:00.5Z")).unwrap().unwrap();
    let then_at = parse_since(Some("2026-01-01T01:00:00+01:00")).unwrap().unwrap();
    assert_eq!(then_at, Instant::new(1_767_225_600, 0).unwrap());
    assert_eq!((now.seconds(), now.subsec_nanos()), (1_767_312_000, 500_000_000));
    assert_eq!(age_seconds(now, then_at), 86_400);
    assert_eq!(age_seconds(then_at, now), 0);
    assert_eq!(whole_days(now, then_at), 1);
    assert_eq!(whole_days(then_at, now), -1);
    assert_eq!(parse_since(None), Ok(None));
    assert!(Instant::new(i64::MAX, 0).is_none());
}

#[test]
fn days_are_read_and_written_as_chrono_does() {
    let day = parse_grant_date("2026-12-25", "closing_before").unwrap();
    let date = chrono::NaiveDate::from_ymd_opt(2026, 12, 25).unwrap();
    assert_eq!(day, chrono::Datelike::num_days_from_ce(&date));
    let plan = closing_plan(Some(10), day).unwrap();
    assert_eq!(plan.days, 10);
    assert_eq!(
        plan.filters,
        vec![
            pumper_routes::filters::JsonFilter::Eq {
                path: "$.status".to_string(),
                value: "open".to_string(),
            },
            pumper_routes::filters::JsonFilter::Gte {
                path: "$.close_date".to_string(),
                value: "2026-12-25".to_string(),
            },
            pumper_routes::filters::JsonFilter::Lte {
                path: "$.close_date".to_string(),
                value: "2027-01-04".to_string(),
            },
        ]
    );
    assert_eq!(closing_plan(None, i32::MAX), None);
}

#[test]
fn texts_are_ordered_as_the_standard_library_orders_them() {
    let words = ["", "a", "ab", "b", "é", "z", "😀", "\u{ffff}"];
    for a in words {
        for b in words {
            let expect = match a.cmp(b) {
                std::cmp::Ordering::Less => Rank::Before,
                std::cmp::Ordering::Equal => Rank::Same,
                std::cmp::Ordering::Greater => Rank::After,
            };
            assert_eq!(rank_of(a, b), expect, "{a:?} against {b:?}");
        }
    }
}

#[test]
fn host_names_do_not_tell_cases_apart() {
    assert_eq!(host_name("WWW.Example.COM"), "www.example.com");
    assert_eq!(host_name("BÜCHER.de"), "bücher.de");
}

#[test]
fn an_object_keeps_its_keys_in_order_and_each_once() {
    let mut a = Json::object();
    a.set("b", Json::integer(1));
    a.set("a", Json::text("x"));
    a.set("b", Json::unsigned(2));
    match &a {
        Json::Object(entries) => {
            let keys: Vec<&str> = entries.iter().map(|(k, _)| k.as_str()).collect();
            assert_eq!(keys, ["a", "b"]);
        }
        other => panic!("{other:?}"),
    }
    assert_eq!(a.get("b").and_then(|v| v.as_i64()), Some(2));
    assert_eq!(a.text_at("a"), Some("x"));
    assert_eq!(a.get("c"), None);
    assert!(a.copy().same_as(&a));
    assert_eq!(a.at("c"), Json::Null);
    assert_eq!(Json::Bool(true).as_bool(), Some(true));
}

#[test]
fn a_leap_second_counts_between_two_times_of_day() {
    let leap = Instant::new(1_483_228_799, 1_500_000_000).expect("a leap second");
    let noon = Instant::new(1_483_228_799 + 43_201, 0).expect("noon");
    let evening = Instant::new(1_483_228_799 - 7_200, 0).expect("two hours before");
    let eve = Instant::new(1_483_228_799 - 86_400, 1_500_000_000);
    assert_eq!(age_seconds(leap, evening), 7_201);
    assert_eq!(age_seconds(noon, leap), 43_199);
    let early = Instant::new(1_483_228_739, 1_500_000_000).expect("a leap second");
    assert_eq!(age_seconds(leap, early), 61);
    assert_eq!(eve.map(|at| age_seconds(leap, at)), Some(86_400));
}

#[test]
fn days_before_keeps_the_time_of_day() {
    let at = Instant::new(1_767_225_600, 250_000_000).expect("valid timestamp");
    let week = days_before(at, 7).expect("a week earlier");
    assert_eq!((week.seconds(), week.subsec_nanos()), (1_767_225_600 - 604_800, 250_000_000));
    assert_eq!(days_before(at, i64::MAX), None);
    assert_eq!(days_before(at, i64::MIN), None);
    assert_eq!(days_before(at, 200_000_000), None);
}
