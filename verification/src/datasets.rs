//! Dataset reads: what a request for records, changes, history or duplicates asks
//! the store for.

use vstd::prelude::*;

use crate::clock::{parse_since, rfc3339_reading, since_message, Instant};
use crate::cursor::{
    bad_cursor_text, cursor_pair, cursor_text, keyset_cursor, law_strict_refines_lenient,
    pair_view, parse_cursor, parse_cursor_i64_arg, seek_of, text_cursor, Seek,
};
use crate::error::{ApiError, BAD_REQUEST, PAYLOAD_TOO_LARGE};
use crate::filters::{
    filter_of, filter_specs, filter_values, parse_filters, texts, FilterModel, JsonFilter,
};
use crate::json::{lemma_put, models, Json, JsonModel};
use crate::number::{decimal, i64_of, push_i64};
use crate::text::{owned, same, trimmed};

verus! {

/// `x` held between `lo` and `hi`.
pub open spec fn clamped(x: i64, lo: i64, hi: i64) -> i64 {
    if x < lo {
        lo
    } else if x > hi {
        hi
    } else {
        x
    }
}

/// Holds `x` between `lo` and `hi`.
pub fn clamp(x: i64, lo: i64, hi: i64) -> (r: i64)
    requires
        lo <= hi,
    ensures
        r == clamped(x, lo, hi),
        lo <= r <= hi,
{
    if x < lo {
        lo
    } else if x > hi {
        hi
    } else {
        x
    }
}

/// Clamping keeps what lies between the bounds and takes the nearer bound for what
/// does not.
pub proof fn law_clamping_takes_the_nearest(x: i64, lo: i64, hi: i64)
    requires
        lo <= hi,
    ensures
        lo <= clamped(x, lo, hi) <= hi,
        lo <= x <= hi ==> clamped(x, lo, hi) == x,
        x <= lo ==> clamped(x, lo, hi) == lo,
        x >= hi ==> clamped(x, lo, hi) == hi,
{
}

/// Raw dataset reads show every trust level: each record carries its own stamp.
pub fn default_trust_all() -> (r: String)
    ensures
        r@ == "all"@,
{
    owned("all")
}

/// Change feeds show only what the service stands behind.
pub fn default_trust_stable() -> (r: String)
    ensures
        r@ == "stable"@,
{
    owned("stable")
}

/// Dataset reads leave tombstones out.
pub fn default_removed_exclude() -> (r: String)
    ensures
        r@ == "exclude"@,
{
    owned("exclude")
}

/// The store's trust predicate for a query value: `all` means none.
pub fn trust_filter(raw: &str) -> (r: Option<&str>)
    ensures
        r is None <==> raw@ == "all"@,
        r matches Some(t) ==> t@ == raw@,
{
    if same(raw, "all") {
        None
    } else {
        Some(raw)
    }
}

/// The refusal of an unknown `removed` value.
pub open spec fn removed_message(raw: Seq<char>) -> Seq<char> {
    "removed '"@ + raw + "' must be 'include' or 'exclude'"@
}

/// Whether a read includes tombstones. A typo must not quietly resolve to
/// "excluded" and hide the records the caller was asking to see.
pub fn parse_removed(raw: &str) -> (r: Result<bool, ApiError>)
    ensures
        match r {
            Ok(true) => raw@ == "include"@,
            Ok(false) => raw@ == "exclude"@,
            Err(e) => raw@ != "include"@ && raw@ != "exclude"@ && e@ == (
                400u16,
                removed_message(raw@),
            ),
        },
{
    if same(raw, "include") {
        Ok(true)
    } else if same(raw, "exclude") {
        proof {
            reveal_strlit("include");
            reveal_strlit("exclude");
            assert("include"@[0] != "exclude"@[0]);
        }
        Ok(false)
    } else {
        let mut m = owned("removed '");
        m.append(raw);
        m.append("' must be 'include' or 'exclude'");
        Err(ApiError::new(BAD_REQUEST, m))
    }
}

/// The query of a dataset read, defaults filled in.
#[derive(Debug, PartialEq)]
pub struct RecordsQuery {
    pub limit: i64,
    pub cursor: Option<String>,
    pub trust: String,
    pub removed: String,
}

/// What a dataset read asks the store for.
#[derive(Debug)]
pub struct ReadPlan {
    pub limit: i64,
    pub filters: Vec<JsonFilter>,
    pub trust: Option<String>,
    pub include_removed: bool,
    /// Whether the answer is `{items, next_cursor}` rather than a bare array.
    pub paged: bool,
    /// The position a page starts after.
    pub after: Option<(String, String)>,
}

/// An optional string as an optional sequence.
pub open spec fn text_view(s: Option<String>) -> Option<Seq<char>> {
    match s {
        Some(t) => Some(t@),
        None => None,
    }
}

/// Whether `filters` are what `specs` ask for, one for one.
pub open spec fn filters_match(filters: Seq<JsonFilter>, specs: Seq<Seq<char>>) -> bool {
    &&& filters.len() == specs.len()
    &&& forall|i: int|
        0 <= i < specs.len() ==> #[trigger] filter_of(specs[i]) == Ok::<FilterModel, Seq<char>>(
            filters[i]@,
        )
}

/// Whether `message` is the refusal of the first malformed entry of `specs`.
pub open spec fn filters_refused(specs: Seq<Seq<char>>, message: Seq<char>) -> bool {
    exists|i: int|
        0 <= i < specs.len() && #[trigger] filter_of(specs[i]) == Err::<FilterModel, Seq<char>>(
            message,
        ) && forall|k: int| 0 <= k < i ==> #[trigger] filter_of(specs[k]) is Ok
}

/// Whether every entry of `specs` is well formed.
pub open spec fn filters_ok(specs: Seq<Seq<char>>) -> bool {
    forall|i: int| 0 <= i < specs.len() ==> #[trigger] filter_of(specs[i]) is Ok
}

/// The trust predicate of a query value, as text.
pub open spec fn trust_of(raw: Seq<char>) -> Option<Seq<char>> {
    if raw == "all"@ {
        None
    } else {
        Some(raw)
    }
}

/// A read of `all` is not narrowed by trust, and a read of anything else is narrowed
/// to just that.
pub proof fn law_only_all_reads_every_trust(raw: Seq<char>)
    ensures
        trust_of("all"@) is None,
        raw != "all"@ ==> trust_of(raw) == Some(raw),
{
}

pub(crate) fn read_filters(pairs: &[(String, String)]) -> (r: Result<Vec<JsonFilter>, ApiError>)
    ensures
        match r {
            Ok(v) => filters_match(v@, filter_values(pairs@)) && filters_ok(filter_values(pairs@)),
            Err(e) => e.status == 400 && filters_refused(filter_values(pairs@), e.message@),
        },
{
    let specs = filter_specs(pairs);
    let ghost want = filter_values(pairs@);
    assert(texts(specs@) == want);
    assert forall|i: int| 0 <= i < want.len() implies #[trigger] want[i] == specs@[i]@ by {
        assert(texts(specs@)[i] == specs@[i]@);
    }
    match parse_filters(&specs) {
        Ok(v) => {
            assert forall|i: int| 0 <= i < want.len() implies #[trigger] filter_of(want[i]) == Ok::<
                FilterModel,
                Seq<char>,
            >(v@[i]@) by {
                assert(v@[i]@ == v@[i]@);
            }
            Ok(v)
        },
        Err(e) => {
            proof {
                let i = choose|i: int|
                    0 <= i < specs@.len() && #[trigger] filter_of(specs@[i]@) == Err::<
                        FilterModel,
                        Seq<char>,
                    >(e.message@) && forall|k: int|
                        0 <= k < i ==> #[trigger] filter_of(specs@[k]@) is Ok;
                assert(filter_of(want[i]) == Err::<FilterModel, Seq<char>>(e.message@));
                assert forall|k: int| 0 <= k < i implies #[trigger] filter_of(want[k]) is Ok by {
                    assert(filter_of(specs@[k]@) is Ok);
                }
            }
            Err(e)
        },
    }
}

pub(crate) fn trust_owned(raw: &str) -> (r: Option<String>)
    ensures
        text_view(r) == trust_of(raw@),
{
    match trust_filter(raw) {
        Some(t) => Some(owned(t)),
        None => None,
    }
}

/// Filters are taken in where every one reads, each as itself and in its place; else
/// the first that does not read refuses them all, in its own words.
pub proof fn law_the_first_bad_filter_refuses_all(
    specs: Seq<Seq<char>>,
    filters: Seq<JsonFilter>,
    i: int,
    message: Seq<char>,
)
    requires
        0 <= i <= specs.len(),
        forall|k: int| 0 <= k < i ==> filter_of(#[trigger] specs[k]) is Ok,
        i < specs.len() ==> filter_of(specs[i]) is Err,
    ensures
        filters_ok(specs) <==> i == specs.len(),
        i < specs.len() ==> (filters_refused(specs, message) <==> filter_of(specs[i])->Err_0
            == message),
        i == specs.len() ==> !filters_refused(specs, message),
        filters_match(filters, specs) ==> filters.len() == specs.len() && i == specs.len()
            && forall|k: int|
            0 <= k < specs.len() ==> filter_of(#[trigger] specs[k])->Ok_0 == filters[k]@,
{
    if i < specs.len() {
        assert(filter_of(specs[i]) is Err);
        if filter_of(specs[i])->Err_0 == message {
            assert(filter_of(specs[i]) == Err::<FilterModel, Seq<char>>(message));
            assert(forall|k: int| 0 <= k < i ==> #[trigger] filter_of(specs[k]) is Ok);
        }
        if filters_refused(specs, message) {
            let j = choose|j: int|
                0 <= j < specs.len() && #[trigger] filter_of(specs[j]) == Err::<
                    FilterModel,
                    Seq<char>,
                >(message) && forall|k: int| 0 <= k < j ==> #[trigger] filter_of(specs[k]) is Ok;
            if j < i {
                assert(filter_of(specs[j]) is Ok);
            } else if i < j {
                assert(filter_of(specs[i]) is Ok);
            }
        }
        if filters_match(filters, specs) {
            assert(filter_of(specs[i]) is Ok);
        }
    } else {
        if filters_refused(specs, message) {
            let j = choose|j: int|
                0 <= j < specs.len() && #[trigger] filter_of(specs[j]) == Err::<
                    FilterModel,
                    Seq<char>,
                >(message) && forall|k: int| 0 <= k < j ==> #[trigger] filter_of(specs[k]) is Ok;
            assert(filter_of(specs[j]) is Ok);
        }
    }
}

/// What `GET /datasets/{app}/{dataset}` asks the store for. Every shape of the
/// read — default, paged and filtered — honours `trust` and `removed` alike.
pub fn list_records(query: &RecordsQuery, pairs: &[(String, String)]) -> (r: Result<
    ReadPlan,
    ApiError,
>)
    ensures
        match r {
            Ok(p) => {
                &&& p.limit == clamped(query.limit, 1, 1000)
                &&& filters_match(p.filters@, filter_values(pairs@))
                &&& text_view(p.trust) == trust_of(query.trust@)
                &&& query.removed@ == if p.include_removed {
                    "include"@
                } else {
                    "exclude"@
                }
                &&& p.paged == query.cursor is Some
                &&& match query.cursor {
                    Some(c) => pair_view(p.after) == cursor_pair(c@),
                    None => p.after is None,
                }
            },
            Err(e) => {
                ||| e.status == 400 && filters_refused(filter_values(pairs@), e.message@)
                ||| filters_ok(filter_values(pairs@)) && query.removed@ != "include"@
                    && query.removed@ != "exclude"@ && e@ == (
                    400u16,
                    removed_message(query.removed@),
                )
            },
        },
{
    let filters = match read_filters(pairs) {
        Ok(v) => v,
        Err(e) => {
            return Err(e);
        },
    };
    let trust = trust_owned(query.trust.as_str());
    let include_removed = match parse_removed(query.removed.as_str()) {
        Ok(b) => b,
        Err(e) => {
            return Err(e);
        },
    };
    let after = match &query.cursor {
        Some(c) => parse_cursor(c.as_str()),
        None => None,
    };
    Ok(
        ReadPlan {
            limit: clamp(query.limit, 1, 1000),
            filters,
            trust,
            include_removed,
            paged: query.cursor.is_some(),
            after,
        },
    )
}

/// A row's place in the keyset order: the text of its sort time, and its key.
#[derive(Debug, PartialEq)]
pub struct RowKey {
    pub ts: String,
    pub key: String,
}

/// The cursor that continues a page of records, when the page came back full.
pub fn records_next_cursor(rows: &[RowKey], limit: i64) -> (r: Option<String>)
    ensures
        r is Some <==> rows@.len() > 0 && rows@.len() == limit,
        r matches Some(c) ==> c@ == cursor_text(rows@.last().ts@, rows@.last().key@),
{
    let encode = |row: &RowKey| -> (c: String)
        ensures
            c@ == cursor_text(row.ts@, row.key@),
        { text_cursor(row.ts.as_str(), row.key.as_str()) };
    keyset_cursor(rows, limit, encode)
}

/// The query of a change feed, defaults filled in.
#[derive(Debug, PartialEq)]
pub struct ChangesQuery {
    pub since: Option<String>,
    pub limit: i64,
    pub cursor: Option<String>,
    pub trust: String,
}

/// What a revision feed asks the store for.
#[derive(Debug)]
pub struct FeedPlan {
    pub since: Option<Instant>,
    pub limit: i64,
    pub trust: Option<String>,
    /// Whether the answer is `{items, next_cursor}`.
    pub paged: bool,
    pub after: Option<(String, i64)>,
}

/// What an optional `since` asks for: no bound, an instant, or a refusal.
pub open spec fn since_reading(since: Option<String>) -> Result<Option<(i64, u32)>, Seq<char>> {
    match since {
        None => Ok(None),
        Some(s) => match rfc3339_reading(s@) {
            Ok(parts) => Ok(Some(parts)),
            Err(reason) => Err(since_message(reason)),
        },
    }
}

/// An optional instant by its parts.
pub open spec fn instant_view(i: Option<Instant>) -> Option<(i64, u32)> {
    match i {
        Some(x) => Some(x@),
        None => None,
    }
}

/// Whether `after` is where a strict numeric cursor seeks to.
pub open spec fn seeks_to(cursor: Option<String>, after: Option<(String, i64)>) -> bool {
    match (cursor, after) {
        (None, None) => true,
        (Some(c), None) => seek_of(c@) is FirstPage,
        (Some(c), Some((ts, n))) => seek_of(c@) == Seek::After(ts@, n),
        (None, Some(_)) => false,
    }
}

/// Whether a strict numeric cursor is refused, and with which message.
pub open spec fn seek_refused(cursor: Option<String>, message: Seq<char>) -> bool {
    match cursor {
        Some(c) => seek_of(c@) is Malformed && message == bad_cursor_text(c@),
        None => false,
    }
}

/// A feed starts over exactly where no cursor was sent or a blank one; any other
/// cursor either gives the place the page begins after, as its text reads, or is
/// refused.
pub proof fn law_a_cursor_is_honoured_or_refused(
    cursor: Option<String>,
    after: Option<(String, i64)>,
    message: Seq<char>,
)
    ensures
        seeks_to(cursor, after) ==> {
            &&& after is None <==> (cursor is None || trimmed(cursor->0@).len() == 0)
            &&& after matches Some((ts, n)) ==> exists|tie: Seq<char>|
                cursor_pair(cursor->0@) == Some((ts@, tie)) && #[trigger] i64_of(tie) == Some(n)
        },
        seek_refused(cursor, message) ==> cursor is Some && trimmed(cursor->0@).len() > 0
            && !seeks_to(cursor, after) && message == bad_cursor_text(cursor->0@),
{
    if let Some(c) = cursor {
        law_strict_refines_lenient(c@);
    }
}

/// What `GET /datasets/{app}/{dataset}/changes` asks the store for, given the
/// `since` that was read. A corrupt cursor is refused: restarting a mirror at
/// the newest revision would lose data without a signal.
pub fn plan_changes(query: &ChangesQuery, since: Option<Instant>) -> (r: Result<
    FeedPlan,
    ApiError,
>)
    ensures
        match r {
            Ok(p) => {
                &&& p.since == since
                &&& p.limit == clamped(query.limit, 1, 1000)
                &&& text_view(p.trust) == trust_of(query.trust@)
                &&& p.paged == query.cursor is Some
                &&& seeks_to(query.cursor, p.after)
            },
            Err(e) => e.status == 400 && seek_refused(query.cursor, e.message@),
        },
{
    let trust = trust_owned(query.trust.as_str());
    let after = match &query.cursor {
        Some(c) => match parse_cursor_i64_arg(c.as_str()) {
            Ok(a) => a,
            Err(e) => {
                return Err(e);
            },
        },
        None => None,
    };
    Ok(
        FeedPlan {
            since,
            limit: clamp(query.limit, 1, 1000),
            trust,
            paged: query.cursor.is_some(),
            after,
        },
    )
}

/// What a change-feed request asks the store for.
pub fn dataset_changes(query: &ChangesQuery) -> (r: Result<FeedPlan, ApiError>)
    ensures
        match r {
            Ok(p) => {
                &&& since_reading(query.since) == Ok::<Option<(i64, u32)>, Seq<char>>(
                    instant_view(p.since),
                )
                &&& p.limit == clamped(query.limit, 1, 1000)
                &&& text_view(p.trust) == trust_of(query.trust@)
                &&& p.paged == query.cursor is Some
                &&& seeks_to(query.cursor, p.after)
            },
            Err(e) => e.status == 400 && match since_reading(query.since) {
                Err(m) => e.message@ == m,
                Ok(_) => seek_refused(query.cursor, e.message@),
            },
        },
{
    let given = match &query.since {
        Some(s) => Some(s.as_str()),
        None => None,
    };
    match parse_since(given) {
        Ok(since) => plan_changes(query, since),
        Err(e) => Err(e),
    }
}

/// What `GET /datasets/{app}/{dataset}/history` asks the store for: the page
/// size, whether the answer is paged, and the position it starts after.
pub fn record_history(limit: i64, cursor: &Option<String>) -> (r: Result<
    (i64, Option<(String, i64)>),
    ApiError,
>)
    ensures
        match r {
            Ok((l, after)) => l == clamped(limit, 1, 500) && seeks_to(*cursor, after),
            Err(e) => e.status == 400 && seek_refused(*cursor, e.message@),
        },
{
    let after = match cursor {
        Some(c) => match parse_cursor_i64_arg(c.as_str()) {
            Ok(a) => a,
            Err(e) => {
                return Err(e);
            },
        },
        None => None,
    };
    Ok((clamp(limit, 1, 500), after))
}

/// Largest dataset the pairwise duplicate scan takes on.
pub const DUP_SCAN_MAX: i64 = 10_000;

/// Hamming distance used when a request names none.
pub fn default_distance() -> (r: u32)
    ensures
        r == 3,
{
    3
}

/// The refusal of a dataset that is too large to scan.
pub open spec fn dup_scan_message(count: int) -> Seq<char> {
    "dataset has "@ + decimal(count)
        + " records; the duplicate scan is O(n²) and capped at 10000. Narrow the dataset or run the scan offline."@
}

/// The distance a duplicate scan uses, or the refusal of a dataset too large for
/// a pairwise sweep.
pub fn dataset_duplicates(count: i64, distance: u32) -> (r: Result<u32, ApiError>)
    ensures
        match r {
            Ok(d) => count <= 10_000 && d == if distance > 20 {
                20
            } else {
                distance as int
            },
            Err(e) => count > 10_000 && e@ == (413u16, dup_scan_message(count as int)),
        },
{
    if count > DUP_SCAN_MAX {
        let mut m = owned("dataset has ");
        push_i64(&mut m, count);
        m.append(
            " records; the duplicate scan is O(n²) and capped at 10000. Narrow the dataset or run the scan offline.",
        );
        return Err(ApiError::new(PAYLOAD_TOO_LARGE, m));
    }
    if distance > 20 {
        Ok(20)
    } else {
        Ok(distance)
    }
}

/// A page of a feed.
pub open spec fn feed_page(items: Seq<JsonModel>, next: Option<Seq<char>>) -> JsonModel {
    JsonModel::object().put("items"@, JsonModel::Array(items)).put(
        "next_cursor"@,
        JsonModel::text_or_null(next),
    )
}

/// The change feed in the shape that was asked for: a page when the request carries a
/// cursor, else the changes with their count and the trust they were read at.
pub open spec fn changes_body(
    app: Seq<char>,
    dataset: Seq<char>,
    query: ChangesQuery,
    items: Seq<JsonModel>,
    next: Option<Seq<char>>,
) -> JsonModel {
    if query.cursor is Some {
        feed_page(items, next)
    } else {
        JsonModel::object().put("app"@, JsonModel::Text(app)).put(
            "dataset"@,
            JsonModel::Text(dataset),
        ).put("count"@, JsonModel::integer(items.len() as int)).put(
            "trust"@,
            JsonModel::Text(query.trust@),
        ).put("changes"@, JsonModel::Array(items))
    }
}

/// A paged feed answers with its items and where the next page begins; one that is
/// not paged says what it is a feed of, how many items it holds and at which trust.
pub proof fn law_a_change_feed_names_what_it_shows(
    app: Seq<char>,
    dataset: Seq<char>,
    query: ChangesQuery,
    items: Seq<JsonModel>,
    next: Option<Seq<char>>,
)
    ensures
        ({
            let shown = changes_body(app, dataset, query, items, next);
            if query.cursor is Some {
                &&& shown.get("items"@) == Some(JsonModel::Array(items))
                &&& shown.get("next_cursor"@) == Some(JsonModel::text_or_null(next))
            } else {
                &&& shown.get("app"@) == Some(JsonModel::Text(app))
                &&& shown.get("dataset"@) == Some(JsonModel::Text(dataset))
                &&& shown.get("count"@) == Some(JsonModel::integer(items.len() as int))
                &&& shown.get("trust"@) == Some(JsonModel::Text(query.trust@))
                &&& shown.get("changes"@) == Some(JsonModel::Array(items))
            }
        }),
{
    lemma_feed_page(items, next);
    reveal_strlit("app");
    reveal_strlit("dataset");
    reveal_strlit("count");
    reveal_strlit("trust");
    reveal_strlit("changes");
    assert("dataset"@[0] != "changes"@[0]);
    assert("count"@[0] != "trust"@[0]);
    let m0 = JsonModel::object();
    lemma_put(m0, "app"@, JsonModel::Text(app));
    let m1 = m0.put("app"@, JsonModel::Text(app));
    lemma_put(m1, "dataset"@, JsonModel::Text(dataset));
    let m2 = m1.put("dataset"@, JsonModel::Text(dataset));
    let count = JsonModel::integer(items.len() as int);
    lemma_put(m2, "count"@, count);
    let m3 = m2.put("count"@, count);
    lemma_put(m3, "trust"@, JsonModel::Text(query.trust@));
    let m4 = m3.put("trust"@, JsonModel::Text(query.trust@));
    lemma_put(m4, "changes"@, JsonModel::Array(items));
}

proof fn lemma_feed_page(items: Seq<JsonModel>, next: Option<Seq<char>>)
    ensures
        feed_page(items, next).get("items"@) == Some(JsonModel::Array(items)),
        feed_page(items, next).get("next_cursor"@) == Some(JsonModel::text_or_null(next)),
{
    reveal_strlit("items");
    reveal_strlit("next_cursor");
    let m0 = JsonModel::object();
    lemma_put(m0, "items"@, JsonModel::Array(items));
    let m1 = m0.put("items"@, JsonModel::Array(items));
    lemma_put(m1, "next_cursor"@, JsonModel::text_or_null(next));
}

/// Answers a read of the change feed.
pub fn changes_answer(
    app: &str,
    dataset: &str,
    query: &ChangesQuery,
    items: Vec<Json>,
    next: &Option<String>,
) -> (r: Json)
    ensures
        r@ == changes_body(app@, dataset@, *query, models(items@), text_view(*next)),
{
    let mut out = Json::object();
    if query.cursor.is_some() {
        out.set("items", Json::array(items));
        out.set("next_cursor", Json::optional_text(next));
    } else {
        out.set("app", Json::text(app));
        out.set("dataset", Json::text(dataset));
        out.set("count", Json::unsigned(items.len() as u64));
        out.set("trust", Json::text(query.trust.as_str()));
        out.set("changes", Json::array(items));
    }
    out
}

/// A record's history in the shape that was asked for: a page when the request
/// carries a cursor, else the revisions with their count.
pub open spec fn history_body(
    head: (Seq<char>, Seq<char>, Seq<char>),
    paged: bool,
    items: Seq<JsonModel>,
    next: Option<Seq<char>>,
) -> JsonModel {
    if paged {
        feed_page(items, next)
    } else {
        JsonModel::object().put("app"@, JsonModel::Text(head.0)).put(
            "dataset"@,
            JsonModel::Text(head.1),
        ).put("key"@, JsonModel::Text(head.2)).put(
            "count"@,
            JsonModel::integer(items.len() as int),
        ).put("revisions"@, JsonModel::Array(items))
    }
}

/// A paged history answers with its revisions and where the next page begins; one
/// that is not paged says whose history it is and how many revisions it holds.
pub proof fn law_a_history_names_what_it_shows(
    head: (Seq<char>, Seq<char>, Seq<char>),
    paged: bool,
    items: Seq<JsonModel>,
    next: Option<Seq<char>>,
)
    ensures
        ({
            let shown = history_body(head, paged, items, next);
            if paged {
                &&& shown.get("items"@) == Some(JsonModel::Array(items))
                &&& shown.get("next_cursor"@) == Some(JsonModel::text_or_null(next))
            } else {
                &&& shown.get("app"@) == Some(JsonModel::Text(head.0))
                &&& shown.get("dataset"@) == Some(JsonModel::Text(head.1))
                &&& shown.get("key"@) == Some(JsonModel::Text(head.2))
                &&& shown.get("count"@) == Some(JsonModel::integer(items.len() as int))
                &&& shown.get("revisions"@) == Some(JsonModel::Array(items))
            }
        }),
{
    lemma_feed_page(items, next);
    reveal_strlit("app");
    reveal_strlit("dataset");
    reveal_strlit("key");
    reveal_strlit("count");
    reveal_strlit("revisions");
    assert("app"@[0] != "key"@[0]);
    let m0 = JsonModel::object();
    lemma_put(m0, "app"@, JsonModel::Text(head.0));
    let m1 = m0.put("app"@, JsonModel::Text(head.0));
    lemma_put(m1, "dataset"@, JsonModel::Text(head.1));
    let m2 = m1.put("dataset"@, JsonModel::Text(head.1));
    lemma_put(m2, "key"@, JsonModel::Text(head.2));
    let m3 = m2.put("key"@, JsonModel::Text(head.2));
    let count = JsonModel::integer(items.len() as int);
    lemma_put(m3, "count"@, count);
    let m4 = m3.put("count"@, count);
    lemma_put(m4, "revisions"@, JsonModel::Array(items));
}

/// Answers a read of a record's history.
pub fn history_answer(
    app: &str,
    dataset: &str,
    key: &str,
    cursor: &Option<String>,
    items: Vec<Json>,
    next: &Option<String>,
) -> (r: Json)
    ensures
        r@ == history_body(
            (app@, dataset@, key@),
            *cursor is Some,
            models(items@),
            text_view(*next),
        ),
{
    let mut out = Json::object();
    if cursor.is_some() {
        out.set("items", Json::array(items));
        out.set("next_cursor", Json::optional_text(next));
    } else {
        out.set("app", Json::text(app));
        out.set("dataset", Json::text(dataset));
        out.set("key", Json::text(key));
        out.set("count", Json::unsigned(items.len() as u64));
        out.set("revisions", Json::array(items));
    }
    out
}

} // verus!
