//! The grants query surface: filters over the cross-source corpus, and the view
//! of what closes soon.

use vstd::prelude::*;

use crate::clock::{day_text, read_ymd, write_day, ymd_day};
use crate::cursor::{cursor_pair, pair_view};
use crate::datasets::{clamp, clamped, text_view};
use crate::error::{ApiError, BAD_REQUEST};
use crate::filters::{
    admits, law_filters_are_required_at_once, satisfies, texts, value_at, FilterModel, JsonFilter,
};
use crate::json::{lemma_put, models, Json, JsonModel};
use crate::number::{is_digit, only_digits};
use crate::order::before;
use crate::paging::{page_plan, PagePlan};
use crate::text::{chars, owned, trim, trimmed};

verus! {

/// The namespace of the corpus.
pub const GRANTS_APP: &'static str = "grants";

/// The dataset of the corpus.
pub const GRANTS_DATASET: &'static str = "unified";

/// Most grants on one page.
pub const GRANTS_MAX_LIMIT: i64 = 500;

/// The days that count as soon when a request names no number.
pub const CLOSING_SOON_DEFAULT_DAYS: i64 = 14;

/// Rows the closing-soon view reads at a time, until it has the whole window.
pub const CLOSING_SOON_SCAN: i64 = 1000;

/// Rows the closing-soon view returns.
pub const CLOSING_SOON_CAP: usize = 200;

/// A query value that is set: trimmed, and not blank.
pub open spec fn set_value(value: Option<String>) -> Option<Seq<char>> {
    match value {
        Some(s) => if trimmed(s@).len() == 0 {
            None
        } else {
            Some(trimmed(s@))
        },
        None => None,
    }
}

/// A query value that is set. A blank one means that it is not, and never asks
/// for the empty text.
pub fn filter_value(value: &Option<String>) -> (r: Option<String>)
    ensures
        text_view(r) == set_value(*value),
{
    match value {
        Some(s) => {
            let t = trim(s.as_str());
            if chars(t.as_str()).len() == 0 {
                None
            } else {
                Some(t)
            }
        },
        None => None,
    }
}

/// Whether a text has the shape `YYYY-MM-DD`: such texts sort as their dates do.
pub open spec fn is_date_shape(s: Seq<char>) -> bool {
    &&& s.len() == 10
    &&& forall|i: int| #![trigger s[i]] 0 <= i < 10 && i != 4 && i != 7 ==> is_digit(s[i])
    &&& s[4] == '-'
    &&& s[7] == '-'
}

/// A date is four digits, two and two, with a hyphen between each.
pub proof fn law_a_date_is_eight_digits_and_two_hyphens(
    year: Seq<char>,
    month: Seq<char>,
    day: Seq<char>,
    s: Seq<char>,
)
    ensures
        only_digits(year) && year.len() == 4 && only_digits(month) && month.len() == 2
            && only_digits(day) && day.len() == 2 ==> is_date_shape(
            year + seq!['-'] + month + seq!['-'] + day,
        ),
        is_date_shape(s) ==> only_digits(s.subrange(0, 4)) && only_digits(s.subrange(5, 7))
            && only_digits(s.subrange(8, 10)) && s == s.subrange(0, 4) + seq!['-'] + s.subrange(
            5,
            7,
        ) + seq!['-'] + s.subrange(8, 10),
{
    let whole = year + seq!['-'] + month + seq!['-'] + day;
    if only_digits(year) && year.len() == 4 && only_digits(month) && month.len() == 2
        && only_digits(day) && day.len() == 2 {
        assert forall|i: int| #![trigger whole[i]] 0 <= i < 10 && i != 4 && i != 7 implies is_digit(
            whole[i],
        ) by {
            if i < 4 {
                assert(is_digit(year[i]));
            } else if i < 7 {
                assert(is_digit(month[i - 5]));
            } else {
                assert(is_digit(day[i - 8]));
            }
        }
    }
    if is_date_shape(s) {
        assert(s =~= s.subrange(0, 4) + seq!['-'] + s.subrange(5, 7) + seq!['-'] + s.subrange(
            8,
            10,
        ));
    }
}

fn date_shape(s: &str) -> (r: bool)
    ensures
        r == is_date_shape(s@),
{
    let cs = chars(s);
    if cs.len() != 10 {
        return false;
    }
    let mut i: usize = 0;
    while i < 10
        invariant
            i <= 10,
            cs@ == s@,
            cs@.len() == 10,
            forall|k: int|
                #![trigger cs@[k]]
                0 <= k < i ==> if k == 4 || k == 7 {
                    cs@[k] == '-'
                } else {
                    is_digit(cs@[k])
                },
        decreases 10 - i,
    {
        let ok = if i == 4 || i == 7 {
            cs[i] == '-'
        } else {
            '0' <= cs[i] && cs[i] <= '9'
        };
        if !ok {
            return false;
        }
        i += 1;
    }
    true
}

/// The day a grant date names; anything but a canonical `YYYY-MM-DD` names none.
pub open spec fn grant_day(value: Seq<char>) -> Option<i32> {
    if is_date_shape(value) {
        ymd_day(value)
    } else {
        None
    }
}

/// Why a date was refused.
pub open spec fn date_message(field: Seq<char>, value: Seq<char>) -> Seq<char> {
    "'"@ + field + "' must be a YYYY-MM-DD date, got '"@ + value + "'"@
}

/// A grant date, given the day its text reads as.
pub fn grant_date_of(value: &str, field: &str, day: Option<i32>) -> (r: Result<i32, ApiError>)
    ensures
        match day {
            Some(d) if is_date_shape(value@) => r == Ok::<i32, ApiError>(d),
            _ => r matches Err(e) && e@ == (400u16, date_message(field@, value@)),
        },
{
    if date_shape(value) {
        if let Some(d) = day {
            return Ok(d);
        }
    }
    let mut m = owned("'");
    m.append(field);
    m.append("' must be a YYYY-MM-DD date, got '");
    m.append(value);
    m.append("'");
    Err(ApiError::new(BAD_REQUEST, m))
}

/// Reads a grant date. The closing filters compare as text, so a malformed one is
/// refused rather than compared.
pub fn parse_grant_date(value: &str, field: &str) -> (r: Result<i32, ApiError>)
    ensures
        match grant_day(value@) {
            Some(d) => r == Ok::<i32, ApiError>(d),
            None => r matches Err(e) && e@ == (400u16, date_message(field@, value@)),
        },
{
    grant_date_of(value, field, read_ymd(value))
}

/// Filters over the corpus, all of which must hold.
#[derive(Debug, PartialEq)]
pub struct GrantsQuery {
    pub status: Option<String>,
    pub agency: Option<String>,
    pub source: Option<String>,
    pub closing_before: Option<String>,
    pub closing_after: Option<String>,
    /// The least amount, as its number is written.
    pub min_award: Option<String>,
}

/// One filter, where the value is set.
pub open spec fn when_set(value: Option<Seq<char>>, filter: FilterModel) -> Seq<FilterModel> {
    if value is Some {
        seq![filter]
    } else {
        Seq::empty()
    }
}

/// The filters of a query, in the order they are asked in. An amount matches
/// either of the two numbers a funder may publish.
pub open spec fn query_filters(q: GrantsQuery) -> Seq<FilterModel> {
    let status = set_value(q.status);
    let source = set_value(q.source);
    let agency = set_value(q.agency);
    let before = set_value(q.closing_before);
    let after = set_value(q.closing_after);
    when_set(status, FilterModel::Eq { path: "$.status"@, value: status->0 }) + when_set(
        source,
        FilterModel::Eq { path: "$.source"@, value: source->0 },
    ) + when_set(agency, FilterModel::Contains { path: "$.agency"@, value: agency->0 }) + when_set(
        before,
        FilterModel::Lte { path: "$.close_date"@, value: before->0 },
    ) + when_set(after, FilterModel::Gte { path: "$.close_date"@, value: after->0 }) + match q.min_award {
        Some(min) => seq![
            FilterModel::NumGteAny {
                paths: seq!["$.award_ceiling"@, "$.total_funding"@],
                value: min@,
            },
        ],
        None => Seq::empty(),
    }
}

proof fn lemma_one(
    record: JsonModel,
    value: Option<Seq<char>>,
    f: FilterModel,
    holds: spec_fn(Seq<char>, Seq<char>) -> bool,
    at_least: spec_fn(JsonModel, Seq<char>) -> bool,
)
    ensures
        admits(record, when_set(value, f), holds, at_least) <==> (value is Some ==> satisfies(
            record,
            f,
            holds,
            at_least,
        )),
{
    if value is Some {
        assert(when_set(value, f)[0] == f);
    }
}

proof fn lemma_paths(record: JsonModel)
    ensures
        value_at(record, "$.status"@) == record.get("status"@),
        value_at(record, "$.source"@) == record.get("source"@),
        value_at(record, "$.agency"@) == record.get("agency"@),
        value_at(record, "$.close_date"@) == record.get("close_date"@),
        value_at(record, "$.award_ceiling"@) == record.get("award_ceiling"@),
        value_at(record, "$.total_funding"@) == record.get("total_funding"@),
{
    reveal_strlit("$.");
    reveal_strlit("$.status");
    reveal_strlit("status");
    reveal_strlit("$.source");
    reveal_strlit("source");
    reveal_strlit("$.agency");
    reveal_strlit("agency");
    reveal_strlit("$.close_date");
    reveal_strlit("close_date");
    reveal_strlit("$.award_ceiling");
    reveal_strlit("award_ceiling");
    reveal_strlit("$.total_funding");
    reveal_strlit("total_funding");
    let root = "$."@;
    assert("$.status"@.take(2) =~= root);
    assert("$.status"@.skip(2) =~= "status"@);
    assert("$.source"@.take(2) =~= root);
    assert("$.source"@.skip(2) =~= "source"@);
    assert("$.agency"@.take(2) =~= root);
    assert("$.agency"@.skip(2) =~= "agency"@);
    assert("$.close_date"@.take(2) =~= root);
    assert("$.close_date"@.skip(2) =~= "close_date"@);
    assert("$.award_ceiling"@.take(2) =~= root);
    assert("$.award_ceiling"@.skip(2) =~= "award_ceiling"@);
    assert("$.total_funding"@.take(2) =~= root);
    assert("$.total_funding"@.skip(2) =~= "total_funding"@);
}

/// A query admits exactly the records that meet each parameter it sets: the
/// status and the source are the ones named, the agency holds the text, the close
/// date is not after `closing_before` and not before `closing_after`, and either
/// amount is at least `min_award`. A blank parameter asks for nothing.
pub proof fn law_a_query_admits_what_meets_each_parameter(
    q: GrantsQuery,
    record: JsonModel,
    holds: spec_fn(Seq<char>, Seq<char>) -> bool,
    at_least: spec_fn(JsonModel, Seq<char>) -> bool,
)
    ensures
        admits(record, query_filters(q), holds, at_least) <==> {
            &&& q.status matches Some(s) ==> trimmed(s@).len() > 0 ==> record.text_at("status"@)
                == Some(trimmed(s@))
            &&& q.source matches Some(s) ==> trimmed(s@).len() > 0 ==> record.text_at("source"@)
                == Some(trimmed(s@))
            &&& q.agency matches Some(s) ==> trimmed(s@).len() > 0 ==> (record.text_at(
                "agency"@,
            ) matches Some(t) && holds(t, trimmed(s@)))
            &&& q.closing_before matches Some(b) ==> trimmed(b@).len() > 0 ==> (record.text_at(
                "close_date"@,
            ) matches Some(d) && !before(trimmed(b@), d))
            &&& q.closing_after matches Some(a) ==> trimmed(a@).len() > 0 ==> (record.text_at(
                "close_date"@,
            ) matches Some(d) && !before(d, trimmed(a@)))
            &&& q.min_award matches Some(m) ==> {
                ||| record.get("award_ceiling"@) matches Some(v) && at_least(v, m@)
                ||| record.get("total_funding"@) matches Some(v) && at_least(v, m@)
            }
        },
{
    let status = set_value(q.status);
    let source = set_value(q.source);
    let agency = set_value(q.agency);
    let until = set_value(q.closing_before);
    let from = set_value(q.closing_after);
    let f1 = FilterModel::Eq { path: "$.status"@, value: status->0 };
    let f2 = FilterModel::Eq { path: "$.source"@, value: source->0 };
    let f3 = FilterModel::Contains { path: "$.agency"@, value: agency->0 };
    let f4 = FilterModel::Lte { path: "$.close_date"@, value: until->0 };
    let f5 = FilterModel::Gte { path: "$.close_date"@, value: from->0 };
    let s1 = when_set(status, f1);
    let s2 = s1 + when_set(source, f2);
    let s3 = s2 + when_set(agency, f3);
    let s4 = s3 + when_set(until, f4);
    let s5 = s4 + when_set(from, f5);
    lemma_paths(record);
    lemma_one(record, status, f1, holds, at_least);
    lemma_one(record, source, f2, holds, at_least);
    lemma_one(record, agency, f3, holds, at_least);
    lemma_one(record, until, f4, holds, at_least);
    lemma_one(record, from, f5, holds, at_least);
    law_filters_are_required_at_once(record, s1, when_set(source, f2), holds, at_least);
    law_filters_are_required_at_once(record, s2, when_set(agency, f3), holds, at_least);
    law_filters_are_required_at_once(record, s3, when_set(until, f4), holds, at_least);
    law_filters_are_required_at_once(record, s4, when_set(from, f5), holds, at_least);
    match q.min_award {
        Some(m) => {
            let paths = seq!["$.award_ceiling"@, "$.total_funding"@];
            let f6 = FilterModel::NumGteAny { paths, value: m@ };
            law_filters_are_required_at_once(record, s5, seq![f6], holds, at_least);
            assert(query_filters(q) == s5 + seq![f6]);
            assert(seq![f6][0] == f6);
            assert(admits(record, seq![f6], holds, at_least) <==> satisfies(
                record,
                f6,
                holds,
                at_least,
            ));
            assert(paths[0] == "$.award_ceiling"@);
            assert(paths[1] == "$.total_funding"@);
        },
        None => {
            assert(query_filters(q) =~= s5);
        },
    }
}

/// The filters as their models.
pub open spec fn filter_models(v: Seq<JsonFilter>) -> Seq<FilterModel> {
    Seq::new(v.len(), |i: int| v[i]@)
}

fn push_filter(out: &mut Vec<JsonFilter>, f: JsonFilter)
    ensures
        filter_models(final(out)@) == filter_models(old(out)@) + seq![f@],
{
    let ghost had = out@;
    out.push(f);
    assert(filter_models(out@) =~= filter_models(had) + seq![f@]);
}

/// The refusal of the first closing bound that is no date.
pub open spec fn bad_bound(q: GrantsQuery) -> Option<Seq<char>> {
    let before = set_value(q.closing_before);
    let after = set_value(q.closing_after);
    if before is Some && grant_day(before->0) is None {
        Some(date_message("closing_before"@, before->0))
    } else if after is Some && grant_day(after->0) is None {
        Some(date_message("closing_after"@, after->0))
    } else {
        None
    }
}

/// A query is refused exactly where a bound it sets is no canonical date, and the
/// refusal names the first such bound.
pub proof fn law_only_canonical_dates_bound_a_query(q: GrantsQuery)
    ensures
        ({
            let bad = |v: Option<String>|
                v matches Some(s) && trimmed(s@).len() > 0 && !(is_date_shape(trimmed(s@))
                    && ymd_day(trimmed(s@)) is Some);
            &&& bad_bound(q) is None <==> !bad(q.closing_before) && !bad(q.closing_after)
            &&& bad(q.closing_before) ==> bad_bound(q) == Some(
                date_message("closing_before"@, trimmed(q.closing_before->0@)),
            )
            &&& !bad(q.closing_before) && bad(q.closing_after) ==> bad_bound(q) == Some(
                date_message("closing_after"@, trimmed(q.closing_after->0@)),
            )
        }),
{
}

/// The filters a query asks the store for.
pub fn grant_filters(q: &GrantsQuery) -> (r: Result<Vec<JsonFilter>, ApiError>)
    ensures
        match bad_bound(*q) {
            Some(m) => r matches Err(e) && e@ == (400u16, m),
            None => r matches Ok(v) && filter_models(v@) == query_filters(*q),
        },
{
    let mut out: Vec<JsonFilter> = Vec::new();
    let ghost e = Seq::<FilterModel>::empty();
    assert(filter_models(out@) =~= e);
    if let Some(status) = filter_value(&q.status) {
        push_filter(&mut out, JsonFilter::Eq { path: owned("$.status"), value: status });
    }
    let ghost s1 = when_set(
        set_value(q.status),
        FilterModel::Eq { path: "$.status"@, value: set_value(q.status)->0 },
    );
    assert(filter_models(out@) =~= s1);
    if let Some(source) = filter_value(&q.source) {
        push_filter(&mut out, JsonFilter::Eq { path: owned("$.source"), value: source });
    }
    let ghost s2 = s1 + when_set(
        set_value(q.source),
        FilterModel::Eq { path: "$.source"@, value: set_value(q.source)->0 },
    );
    assert(filter_models(out@) =~= s2);
    if let Some(agency) = filter_value(&q.agency) {
        push_filter(&mut out, JsonFilter::Contains { path: owned("$.agency"), value: agency });
    }
    let ghost s3 = s2 + when_set(
        set_value(q.agency),
        FilterModel::Contains { path: "$.agency"@, value: set_value(q.agency)->0 },
    );
    assert(filter_models(out@) =~= s3);
    if let Some(before) = filter_value(&q.closing_before) {
        if let Err(e) = parse_grant_date(before.as_str(), "closing_before") {
            return Err(e);
        }
        push_filter(&mut out, JsonFilter::Lte { path: owned("$.close_date"), value: before });
    }
    let ghost s4 = s3 + when_set(
        set_value(q.closing_before),
        FilterModel::Lte { path: "$.close_date"@, value: set_value(q.closing_before)->0 },
    );
    assert(filter_models(out@) =~= s4);
    if let Some(after) = filter_value(&q.closing_after) {
        if let Err(e) = parse_grant_date(after.as_str(), "closing_after") {
            return Err(e);
        }
        push_filter(&mut out, JsonFilter::Gte { path: owned("$.close_date"), value: after });
    }
    let ghost s5 = s4 + when_set(
        set_value(q.closing_after),
        FilterModel::Gte { path: "$.close_date"@, value: set_value(q.closing_after)->0 },
    );
    assert(filter_models(out@) =~= s5);
    if let Some(min) = &q.min_award {
        let mut paths: Vec<String> = Vec::new();
        paths.push(owned("$.award_ceiling"));
        paths.push(owned("$.total_funding"));
        assert(texts(paths@) =~= seq!["$.award_ceiling"@, "$.total_funding"@]);
        push_filter(&mut out, JsonFilter::NumGteAny { paths, value: owned(min.as_str()) });
    }
    assert(filter_models(out@) =~= query_filters(*q));
    Ok(out)
}

/// What a list of grants asks the store for: its filters, which are judged first,
/// and its page.
pub fn list_grants(q: &GrantsQuery, limit: i64, cursor: &Option<String>) -> (r: Result<
    (Vec<JsonFilter>, PagePlan),
    ApiError,
>)
    ensures
        match bad_bound(*q) {
            Some(m) => r matches Err(e) && e@ == (400u16, m),
            None => {
                &&& r matches Ok(plan)
                &&& filter_models(plan.0@) == query_filters(*q)
                &&& plan.1.limit == clamped(limit, 1, 500)
                &&& plan.1.paged == (*cursor is Some)
                &&& pair_view(plan.1.after) == match *cursor {
                    Some(c) => cursor_pair(c@),
                    None => None,
                }
            },
        },
{
    match grant_filters(q) {
        Ok(filters) => Ok((filters, page_plan(limit, GRANTS_MAX_LIMIT, cursor))),
        Err(e) => Err(e),
    }
}

/// What the closing-soon view asks the store for.
#[derive(Debug, PartialEq)]
pub struct ClosingPlan {
    pub days: i64,
    pub filters: Vec<JsonFilter>,
}

/// The filters of the closing-soon view.
pub open spec fn closing_filters(today: Seq<char>, until: Seq<char>) -> Seq<FilterModel> {
    seq![
        FilterModel::Eq { path: "$.status"@, value: "open"@ },
        FilterModel::Gte { path: "$.close_date"@, value: today },
        FilterModel::Lte { path: "$.close_date"@, value: until },
    ]
}

/// The closing-soon view admits exactly the open grants whose close date is
/// neither before its first day nor after its last.
pub proof fn law_the_closing_view_admits_its_window(
    today: Seq<char>,
    until: Seq<char>,
    record: JsonModel,
    holds: spec_fn(Seq<char>, Seq<char>) -> bool,
    at_least: spec_fn(JsonModel, Seq<char>) -> bool,
)
    ensures
        admits(record, closing_filters(today, until), holds, at_least) <==> {
            &&& record.text_at("status"@) == Some("open"@)
            &&& record.text_at("close_date"@) matches Some(d)
            &&& !before(d, today)
            &&& !before(until, d)
        },
{
    lemma_paths(record);
    let fs = closing_filters(today, until);
    assert(fs[0] == FilterModel::Eq { path: "$.status"@, value: "open"@ });
    assert(fs[1] == FilterModel::Gte { path: "$.close_date"@, value: today });
    assert(fs[2] == FilterModel::Lte { path: "$.close_date"@, value: until });
    assert(fs.len() == 3);
}

/// The days of the window.
pub open spec fn window_days(days: Option<i64>) -> i64 {
    clamped(
        match days {
            Some(n) => n,
            None => 14,
        },
        1,
        365,
    )
}

/// The view looks two weeks ahead where no number is named, and never less than a day
/// nor more than a year.
pub proof fn law_the_closing_window_is_held_to_a_year(days: Option<i64>)
    ensures
        days is None ==> window_days(days) == 14,
        days matches Some(n) ==> {
            &&& 1 <= n <= 365 ==> window_days(days) == n
            &&& n < 1 ==> window_days(days) == 1
            &&& n > 365 ==> window_days(days) == 365
        },
{
}

/// The days of the window: two weeks where a request names none, and at most a
/// year.
pub fn closing_days(days: Option<i64>) -> (r: i64)
    ensures
        r == window_days(days),
{
    let n: i64 = match days {
        Some(n) => n,
        None => CLOSING_SOON_DEFAULT_DAYS,
    };
    clamp(n, 1, 365)
}

/// Plans the view for the texts of its first and its last day.
pub fn closing_between(days: i64, today: &str, until: &str) -> (r: ClosingPlan)
    ensures
        r.days == days,
        filter_models(r.filters@) == closing_filters(today@, until@),
{
    let mut filters: Vec<JsonFilter> = Vec::new();
    filters.push(JsonFilter::Eq { path: owned("$.status"), value: owned("open") });
    filters.push(JsonFilter::Gte { path: owned("$.close_date"), value: owned(today) });
    filters.push(JsonFilter::Lte { path: owned("$.close_date"), value: owned(until) });
    assert(filter_models(filters@) =~= closing_filters(today@, until@));
    ClosingPlan { days, filters }
}

/// Plans the closing-soon view for a day; nothing where the window leaves the
/// calendar.
pub fn closing_plan(days: Option<i64>, today: i32) -> (r: Option<ClosingPlan>)
    ensures
        ({
            let last = today + window_days(days);
            if last > i32::MAX || day_text(today) is None || day_text(last as i32) is None {
                r is None
            } else {
                &&& r matches Some(p)
                &&& p.days == window_days(days)
                &&& filter_models(p.filters@) == closing_filters(
                    day_text(today)->0,
                    day_text(last as i32)->0,
                )
            }
        }),
{
    let span = closing_days(days);
    let last: i64 = today as i64 + span;
    if last > i32::MAX as i64 {
        return None;
    }
    match (write_day(today), write_day(last as i32)) {
        (Some(from), Some(until)) => Some(closing_between(span, from.as_str(), until.as_str())),
        _ => None,
    }
}

/// A live record of the corpus.
#[derive(Debug, PartialEq)]
pub struct GrantRow {
    pub key: String,
    pub data: Json,
}

/// A record in the view: the days it has left, and what is shown of it.
pub type Ranked = (int, JsonModel);

/// A record as the view shows it, given the day its close date reads as; one that
/// does not read or lies outside the window, or whose data is no object, is left out.
pub open spec fn shown_grant(
    key: Seq<char>,
    data: JsonModel,
    close: Option<i32>,
    days: i64,
    today: i32,
) -> Option<
    Ranked,
> {
    match close {
        Some(day) if data is Object && 0 <= day - today <= days => Some(
            (
                day - today,
                data.put("key"@, JsonModel::Text(key)).put(
                    "days_left"@,
                    JsonModel::integer(day - today),
                ),
            ),
        ),
        _ => None,
    }
}

/// The day a record closes on.
pub open spec fn close_day(data: JsonModel) -> Option<i32> {
    match data.text_at("close_date"@) {
        Some(t) => ymd_day(t),
        None => None,
    }
}

/// The records that close within the days of the window, in the order the store
/// returned them.
pub open spec fn in_window(
    rows: Seq<GrantRow>,
    close: Seq<Option<i32>>,
    days: i64,
    today: i32,
) -> Seq<Ranked>
    decreases rows.len(),
{
    if rows.len() == 0 || rows.len() != close.len() {
        Seq::empty()
    } else {
        let rest = in_window(rows.drop_last(), close.drop_last(), days, today);
        match shown_grant(rows.last().key@, rows.last().data@, close.last(), days, today) {
            Some(g) => rest.push(g),
            None => rest,
        }
    }
}

/// The view holds a record exactly where it closes no earlier than today and no more
/// than the window's days from now; it shows the record as it is, with its key and
/// the days it has left.
pub proof fn law_the_view_shows_what_closes_in_its_window(
    key: Seq<char>,
    data: JsonModel,
    close: Option<i32>,
    days: i64,
    today: i32,
    field: Seq<char>,
)
    ensures
        shown_grant(key, data, close, days, today) is Some <==> data is Object && close is Some
            && today <= close->0 <= today + days,
        shown_grant(key, data, close, days, today) matches Some((left, shown)) ==> {
            &&& left == close->0 - today
            &&& shown.get("key"@) == Some(JsonModel::Text(key))
            &&& shown.get("days_left"@) == Some(JsonModel::integer(close->0 - today))
            &&& field != "key"@ && field != "days_left"@ ==> shown.get(field) == data.get(field)
        },
{
    reveal_strlit("key");
    reveal_strlit("days_left");
    if data is Object && close is Some {
        let text = JsonModel::Text(key);
        let left = JsonModel::integer(close->0 - today);
        lemma_put(data, "key"@, text);
        lemma_put(data.put("key"@, text), "days_left"@, left);
    }
}

/// No record of the window is left out of the view, and none is there that is not of
/// it.
pub proof fn law_the_view_misses_no_record(
    rows: Seq<GrantRow>,
    close: Seq<Option<i32>>,
    days: i64,
    today: i32,
)
    requires
        rows.len() == close.len(),
    ensures
        forall|i: int|
            #![trigger rows[i]]
            0 <= i < rows.len() ==> (shown_grant(
                rows[i].key@,
                rows[i].data@,
                close[i],
                days,
                today,
            ) matches Some(g) ==> in_window(rows, close, days, today).contains(g)),
        forall|n: int|
            0 <= n < in_window(rows, close, days, today).len() ==> exists|i: int|
                0 <= i < rows.len() && shown_grant(
                    (#[trigger] rows[i]).key@,
                    rows[i].data@,
                    close[i],
                    days,
                    today,
                ) == Some(#[trigger] in_window(rows, close, days, today)[n]),
        in_window(rows, close, days, today).len() <= rows.len(),
    decreases rows.len(),
{
    let all = in_window(rows, close, days, today);
    if rows.len() > 0 {
        let r = rows.drop_last();
        let c = close.drop_last();
        law_the_view_misses_no_record(r, c, days, today);
        let rest = in_window(r, c, days, today);
        let last = rows.len() - 1;
        assert forall|i: int| #![trigger rows[i]] 0 <= i < rows.len() implies (shown_grant(
            rows[i].key@,
            rows[i].data@,
            close[i],
            days,
            today,
        ) matches Some(g) ==> all.contains(g)) by {
            if let Some(g) = shown_grant(rows[i].key@, rows[i].data@, close[i], days, today) {
                if i < last {
                    assert(r[i] == rows[i] && c[i] == close[i]);
                    assert(rest.contains(g));
                    let k = choose|k: int| 0 <= k < rest.len() && rest[k] == g;
                    assert(all[k] == g);
                } else {
                    assert(all[rest.len() as int] == g);
                }
            }
        }
        assert forall|n: int| 0 <= n < all.len() implies exists|i: int|
            0 <= i < rows.len() && shown_grant(
                (#[trigger] rows[i]).key@,
                rows[i].data@,
                close[i],
                days,
                today,
            ) == Some(#[trigger] all[n]) by {
            if n < rest.len() {
                assert(all[n] == rest[n]);
                let i = choose|i: int|
                    0 <= i < r.len() && shown_grant(
                        (#[trigger] r[i]).key@,
                        r[i].data@,
                        c[i],
                        days,
                        today,
                    ) == Some(rest[n]);
                assert(rows[i] == r[i] && close[i] == c[i]);
            } else {
                assert(shown_grant(rows[last].key@, rows[last].data@, close[last], days, today)
                    == Some(all[n]));
            }
        }
    }
}

/// `s` with `g` behind everything that closes no later than it.
pub open spec fn placed(s: Seq<Ranked>, g: Ranked) -> Seq<Ranked>
    decreases s.len(),
{
    if s.len() == 0 || s.last().0 <= g.0 {
        s.push(g)
    } else {
        placed(s.drop_last(), g).push(s.last())
    }
}

/// The records soonest first, those of one day in the order they came in.
pub open spec fn soonest_first(s: Seq<Ranked>) -> Seq<Ranked>
    decreases s.len(),
{
    if s.len() == 0 {
        s
    } else {
        placed(soonest_first(s.drop_last()), s.last())
    }
}

/// Whether records are in the order of their closing.
pub open spec fn in_order(s: Seq<Ranked>) -> bool {
    forall|i: int, j: int| 0 <= i < j < s.len() ==> (#[trigger] s[i]).0 <= (#[trigger] s[j]).0
}

proof fn lemma_placed(s: Seq<Ranked>, g: Ranked)
    requires
        in_order(s),
    ensures
        in_order(placed(s, g)),
        placed(s, g).to_multiset() == s.to_multiset().insert(g),
        placed(s, g).len() == s.len() + 1,
        forall|i: int|
            0 <= i < placed(s, g).len() ==> (#[trigger] placed(s, g)[i]).0 <= g.0 || s.len() > 0
                && placed(s, g)[i].0 <= s.last().0,
    decreases s.len(),
{
    broadcast use vstd::seq_lib::group_to_multiset_ensures;

    if s.len() == 0 || s.last().0 <= g.0 {
        assert forall|i: int, j: int| 0 <= i < j < placed(s, g).len() implies (#[trigger] placed(
            s,
            g,
        )[i]).0 <= (#[trigger] placed(s, g)[j]).0 by {
            if j == s.len() && i < s.len() - 1 {
                assert(s[i].0 <= s[s.len() - 1].0);
            }
        }
        assert forall|i: int| 0 <= i < placed(s, g).len() implies (#[trigger] placed(s, g)[i]).0
            <= g.0 || s.len() > 0 && placed(s, g)[i].0 <= s.last().0 by {
            if i < s.len() - 1 {
                assert(s[i].0 <= s[s.len() - 1].0);
            }
        }
    } else {
        let rest = s.drop_last();
        assert(in_order(rest)) by {
            assert forall|i: int, j: int| 0 <= i < j < rest.len() implies (#[trigger] rest[i]).0 <= (
            #[trigger] rest[j]).0 by {
                assert(s[i].0 <= s[j].0);
            }
        }
        lemma_placed(rest, g);
        let out = placed(rest, g).push(s.last());
        assert forall|i: int| 0 <= i < out.len() implies (#[trigger] out[i]).0 <= s.last().0 by {
            if i < out.len() - 1 {
                assert(out[i] == placed(rest, g)[i]);
                if rest.len() > 0 {
                    assert(s[rest.len() - 1].0 <= s[s.len() - 1].0);
                }
            }
        }
        assert(s =~= rest.push(s.last()));
        assert(out.to_multiset() =~= s.to_multiset().insert(g));
    }
}

/// The view is sorted soonest first and loses nobody: it holds exactly the
/// records of the window.
pub proof fn law_closing_soon_is_sorted_and_complete(s: Seq<Ranked>)
    ensures
        in_order(soonest_first(s)),
        soonest_first(s).to_multiset() == s.to_multiset(),
        soonest_first(s).len() == s.len(),
    decreases s.len(),
{
    broadcast use vstd::seq_lib::group_to_multiset_ensures;

    if s.len() > 0 {
        law_closing_soon_is_sorted_and_complete(s.drop_last());
        lemma_placed(soonest_first(s.drop_last()), s.last());
        assert(s =~= s.drop_last().push(s.last()));
    }
}

/// What is shown of the view: all of the records, up to the cap.
pub open spec fn capped(s: Seq<Ranked>) -> Seq<JsonModel> {
    Seq::new(
        if s.len() < 200 {
            s.len()
        } else {
            200
        },
        |i: int| s[i].1,
    )
}

proof fn lemma_placed_of_day(s: Seq<Ranked>, g: Ranked, day: int)
    ensures
        placed(s, g).filter(|x: Ranked| x.0 == day) == if g.0 == day {
            s.filter(|x: Ranked| x.0 == day).push(g)
        } else {
            s.filter(|x: Ranked| x.0 == day)
        },
    decreases s.len(),
{
    reveal(Seq::filter);
    if s.len() == 0 || s.last().0 <= g.0 {
        assert(s.push(g).drop_last() =~= s);
    } else {
        let rest = s.drop_last();
        lemma_placed_of_day(rest, g, day);
        assert(placed(rest, g).push(s.last()).drop_last() =~= placed(rest, g));
    }
}

/// Records that close on one day stay in the order they came in.
pub proof fn law_records_of_a_day_keep_their_order(s: Seq<Ranked>, day: int)
    ensures
        soonest_first(s).filter(|x: Ranked| x.0 == day) == s.filter(|x: Ranked| x.0 == day),
    decreases s.len(),
{
    reveal(Seq::filter);
    if s.len() > 0 {
        law_records_of_a_day_keep_their_order(s.drop_last(), day);
        lemma_placed_of_day(soonest_first(s.drop_last()), s.last(), day);
    }
}

/// The view is cut off at its cap and nowhere else: what is shown are the first
/// records, each as it is.
pub proof fn law_the_view_is_capped(s: Seq<Ranked>)
    ensures
        s.len() <= 200 ==> capped(s).len() == s.len(),
        s.len() > 200 ==> capped(s).len() == 200,
        forall|i: int| 0 <= i < capped(s).len() ==> #[trigger] capped(s)[i] == s[i].1,
{
}

/// Records with their days as their models.
pub open spec fn ranks(v: Seq<(i64, Json)>) -> Seq<Ranked> {
    Seq::new(v.len(), |i: int| (v[i].0 as int, v[i].1@))
}

fn place(out: &mut Vec<(i64, Json)>, days_left: i64, grant: Json)
    requires
        in_order(ranks(old(out)@)),
    ensures
        ranks(final(out)@) == placed(ranks(old(out)@), (days_left as int, grant@)),
{
    let ghost had = out@;
    let ghost g = (days_left as int, grant@);
    let mut i: usize = out.len();
    assert(had.take(i as int) =~= had);
    assert(placed(ranks(had), g) =~= placed(ranks(had.take(i as int)), g) + ranks(
        had.skip(i as int),
    ));
    while i > 0 && out[i - 1].0 > days_left
        invariant
            i <= out@.len(),
            out@ == had,
            g == (days_left as int, grant@),
            placed(ranks(had), g) == placed(ranks(had.take(i as int)), g) + ranks(
                had.skip(i as int),
            ),
        decreases i,
    {
        proof {
            let s = ranks(had.take(i as int));
            assert(s.drop_last() =~= ranks(had.take(i - 1)));
            assert(s.last() == ranks(had)[i - 1]);
            assert(placed(s, g) + ranks(had.skip(i as int)) =~= placed(
                ranks(had.take(i - 1)),
                g,
            ) + ranks(had.skip(i - 1)));
        }
        i -= 1;
    }
    out.insert(i, (days_left, grant));
    proof {
        let s = ranks(had.take(i as int));
        assert(placed(s, g) == s.push(g));
        assert(ranks(out@) =~= s.push(g) + ranks(had.skip(i as int)));
    }
}

/// The closing-soon view over the records the store returned, given the day each
/// closes on: the window's total, and the soonest of them.
pub fn closing_view(rows: &[GrantRow], close: &[Option<i32>], days: i64, today: i32) -> (r: Json)
    requires
        rows@.len() == close@.len(),
    ensures
        ({
            let window = in_window(rows@, close@, days, today);
            r@ == JsonModel::object().put("days"@, JsonModel::integer(days as int)).put(
                "count"@,
                JsonModel::integer(window.len() as int),
            ).put("grants"@, JsonModel::Array(capped(soonest_first(window))))
        }),
{
    let mut window: Vec<(i64, Json)> = Vec::new();
    let mut i: usize = 0;
    assert(ranks(window@) =~= Seq::empty());
    while i < rows.len()
        invariant
            i <= rows@.len() == close@.len(),
            window@.len() <= i,
            ranks(window@) == soonest_first(
                in_window(rows@.take(i as int), close@.take(i as int), days, today),
            ),
        decreases rows@.len() - i,
    {
        let ghost before = in_window(rows@.take(i as int), close@.take(i as int), days, today);
        proof {
            assert(rows@.take(i + 1).drop_last() =~= rows@.take(i as int));
            assert(close@.take(i + 1).drop_last() =~= close@.take(i as int));
            law_closing_soon_is_sorted_and_complete(before);
        }
        let row = &rows[i];
        let is_object = match &row.data {
            Json::Object(_) => true,
            _ => false,
        };
        assert(is_object == (row.data@ is Object));
        if let Some(day) = close[i] {
            let days_left: i64 = day as i64 - today as i64;
            if is_object && 0 <= days_left && days_left <= days {
                let mut grant = row.data.copy();
                grant.set("key", Json::text(row.key.as_str()));
                grant.set("days_left", Json::integer(days_left));
                let ghost g = (days_left as int, grant@);
                place(&mut window, days_left, grant);
                proof {
                    assert(before.push(g).drop_last() =~= before);
                    lemma_placed(soonest_first(before), g);
                    assert(ranks(window@).len() == window@.len());
                }
            }
        }
        i += 1;
    }
    assert(rows@.take(rows@.len() as int) =~= rows@);
    assert(close@.take(close@.len() as int) =~= close@);
    proof {
        law_closing_soon_is_sorted_and_complete(in_window(rows@, close@, days, today));
        assert(ranks(window@).len() == window@.len());
    }
    let count = window.len() as u64;
    let ghost whole = ranks(window@);
    let mut grants: Vec<Json> = Vec::new();
    let mut k: usize = 0;
    while k < window.len() && k < CLOSING_SOON_CAP
        invariant
            k <= window@.len(),
            k <= 200,
            whole == ranks(window@),
            grants@.len() == k,
            forall|n: int| 0 <= n < k ==> (#[trigger] grants@[n])@ == whole[n].1,
        decreases window@.len() - k,
    {
        grants.push(window[k].1.copy());
        k += 1;
    }
    assert(models(grants@) =~= capped(whole));
    let mut out = Json::object();
    out.set("days", Json::integer(days));
    out.set("count", Json::unsigned(count));
    out.set("grants", Json::array(grants));
    out
}

/// Where the closing-soon view reads on after a page of `read` rows that ended at
/// `last`; nothing when the page did not fill, and the window has been read.
pub fn closing_page(read: usize, last: Option<(String, String)>) -> (r: Option<(String, String)>)
    ensures
        r == if read < 1_000 {
            None
        } else {
            last
        },
{
    if read < CLOSING_SOON_SCAN as usize {
        None
    } else {
        last
    }
}

/// The days the records close on.
pub open spec fn close_days(rows: Seq<GrantRow>) -> Seq<Option<i32>> {
    Seq::new(rows.len(), |i: int| close_day(rows[i].data@))
}

/// The closing-soon view over the records the store returned.
pub fn closing_soon(rows: &[GrantRow], days: i64, today: i32) -> (r: Json)
    ensures
        ({
            let window = in_window(rows@, close_days(rows@), days, today);
            r@ == JsonModel::object().put("days"@, JsonModel::integer(days as int)).put(
                "count"@,
                JsonModel::integer(window.len() as int),
            ).put("grants"@, JsonModel::Array(capped(soonest_first(window))))
        }),
{
    let mut close: Vec<Option<i32>> = Vec::new();
    let mut i: usize = 0;
    while i < rows.len()
        invariant
            i <= rows@.len(),
            close@.len() == i,
            forall|k: int| 0 <= k < i ==> #[trigger] close@[k] == close_day(rows@[k].data@),
        decreases rows@.len() - i,
    {
        let day = match rows[i].data.text_at("close_date") {
            Some(t) => read_ymd(t),
            None => None,
        };
        close.push(day);
        i += 1;
    }
    assert(close@ =~= close_days(rows@));
    closing_view(rows, &close, days, today)
}

} // verus!
