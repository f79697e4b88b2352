//! Derived datasets: which specifications may be stored, and what a backfill
//! may do.

use vstd::prelude::*;

use crate::datasets::{clamp, clamped, filters_ok, filters_refused};
use crate::error::{ApiError, BAD_REQUEST, CONFLICT, NOT_FOUND};
use crate::filters::{filter_of, is_json_path, parse_filters, texts, FilterModel};
use crate::text::{begins, chars, is_blank, owned, starts_with, trimmed};

verus! {

/// A join with another dataset by one key.
#[derive(Debug, PartialEq)]
pub struct LookupBody {
    pub dataset: String,
    /// The path into the source record that yields the key.
    pub key_expr: String,
    /// The field the looked-up record is merged under.
    pub merge_as: String,
}

/// A request for a derived dataset. The maps are listed in the order of their
/// fields.
#[derive(Debug, PartialEq)]
pub struct CreateDerivedBody {
    pub source_app: String,
    pub source_dataset: String,
    pub target_dataset: String,
    pub filters: Option<Vec<String>>,
    pub project: Option<Vec<(String, String)>>,
    pub lookup: Option<LookupBody>,
    pub group_by: Option<Vec<String>>,
    pub aggregates: Option<Vec<(String, String)>>,
}

/// The grouping half of a derived dataset.
#[derive(Debug, PartialEq)]
pub struct DerivedGroup {
    pub group_by: Vec<String>,
    pub aggregates: Vec<(String, String)>,
}

/// A specification that may be stored.
#[derive(Debug, PartialEq)]
pub struct NewDerivedSpec {
    pub source_app: String,
    pub source_dataset: String,
    pub target_dataset: String,
    pub filters: Vec<String>,
    pub project: Vec<(String, String)>,
    pub lookup: Option<LookupBody>,
    pub group: Option<DerivedGroup>,
}

/// The refusal of a blank name: of the first one, as the names are listed.
pub open spec fn blank_name(body: CreateDerivedBody) -> Option<Seq<char>> {
    if trimmed(body.source_app@).len() == 0 {
        Some("source_app must not be empty"@)
    } else if trimmed(body.source_dataset@).len() == 0 {
        Some("source_dataset must not be empty"@)
    } else if trimmed(body.target_dataset@).len() == 0 {
        Some("target_dataset must not be empty"@)
    } else {
        None
    }
}

/// The filters a request names.
pub open spec fn body_filters(body: CreateDerivedBody) -> Seq<Seq<char>> {
    match body.filters {
        Some(specs) => texts(specs@),
        None => Seq::empty(),
    }
}

/// The projection a request names.
pub open spec fn body_project(body: CreateDerivedBody) -> Seq<(String, String)> {
    match body.project {
        Some(fields) => fields@,
        None => Seq::empty(),
    }
}

/// The refusal of one projected field.
pub open spec fn project_message(field: Seq<char>, path: Seq<char>) -> Seq<char> {
    "project field '"@ + field + "' must map to a JSON path starting with '$.' (got '"@ + path
        + "')"@
}

/// The refusal of the first projected field that maps to no path.
pub open spec fn bad_project(fields: Seq<(String, String)>) -> Option<Seq<char>>
    decreases fields.len(),
{
    if fields.len() == 0 {
        None
    } else if !is_json_path(fields[0].1@) {
        Some(project_message(fields[0].0@, fields[0].1@))
    } else {
        bad_project(fields.drop_first())
    }
}

/// A projection is refused for its first field whose path is none, and accepted
/// where every path begins at the root.
pub proof fn law_a_projection_is_refused_by_its_first_bad_path(
    fields: Seq<(String, String)>,
    i: int,
)
    requires
        0 <= i <= fields.len(),
        forall|k: int| 0 <= k < i ==> begins((#[trigger] fields[k]).1@, "$."@),
        i < fields.len() ==> !begins(fields[i].1@, "$."@),
    ensures
        i == fields.len() ==> bad_project(fields) is None,
        i < fields.len() ==> bad_project(fields) == Some(
            project_message(fields[i].0@, fields[i].1@),
        ),
    decreases i,
{
    if i > 0 {
        let rest = fields.drop_first();
        assert(begins(fields[0].1@, "$."@));
        assert forall|k: int| 0 <= k < i - 1 implies begins((#[trigger] rest[k]).1@, "$."@) by {
            assert(rest[k] == fields[k + 1]);
        }
        law_a_projection_is_refused_by_its_first_bad_path(rest, i - 1);
    }
}

/// The refusal of a lookup.
pub open spec fn bad_lookup(lookup: Option<LookupBody>) -> Option<Seq<char>> {
    match lookup {
        None => None,
        Some(l) => if trimmed(l.dataset@).len() == 0 || trimmed(l.merge_as@).len() == 0 {
            Some("lookup.dataset and lookup.merge_as must not be empty"@)
        } else if !is_json_path(l.key_expr@) {
            Some(
                "lookup.key_expr must be a JSON path starting with '$.' (got '"@ + l.key_expr@
                    + "')"@,
            )
        } else {
            None
        },
    }
}

/// The refusal of a grouping that is only half there.
pub open spec fn half_group(body: CreateDerivedBody) -> bool {
    (body.group_by is Some) != (body.aggregates is Some)
}

/// A derived dataset needs a source app, a source dataset and a target, none blank;
/// a lookup needs a dataset, a name to merge under and a path; a grouping needs both
/// its halves or neither.
pub proof fn law_a_derived_body_names_all_it_needs(body: CreateDerivedBody)
    ensures
        blank_name(body) is None <==> trimmed(body.source_app@).len() > 0 && trimmed(
            body.source_dataset@,
        ).len() > 0 && trimmed(body.target_dataset@).len() > 0,
        bad_lookup(body.lookup) is None <==> (body.lookup matches Some(l) ==> trimmed(
            l.dataset@,
        ).len() > 0 && trimmed(l.merge_as@).len() > 0 && begins(l.key_expr@, "$."@)),
        half_group(body) <==> (body.group_by is Some && body.aggregates is None) || (
        body.group_by is None && body.aggregates is Some),
{
}

/// The refusal names the first field that is blank, and what a lookup lacks.
pub proof fn law_a_refused_derived_body_names_its_field(body: CreateDerivedBody)
    ensures
        trimmed(body.source_app@).len() == 0 ==> blank_name(body) == Some(
            "source_app must not be empty"@,
        ),
        trimmed(body.source_app@).len() > 0 && trimmed(body.source_dataset@).len() == 0
            ==> blank_name(body) == Some("source_dataset must not be empty"@),
        trimmed(body.source_app@).len() > 0 && trimmed(body.source_dataset@).len() > 0 && trimmed(
            body.target_dataset@,
        ).len() == 0 ==> blank_name(body) == Some("target_dataset must not be empty"@),
        body.lookup matches Some(l) ==> {
            let unnamed = trimmed(l.dataset@).len() == 0 || trimmed(l.merge_as@).len() == 0;
            &&& unnamed ==> bad_lookup(body.lookup) == Some(
                "lookup.dataset and lookup.merge_as must not be empty"@,
            )
            &&& !unnamed && !begins(l.key_expr@, "$."@) ==> bad_lookup(body.lookup) == Some(
                "lookup.key_expr must be a JSON path starting with '$.' (got '"@ + l.key_expr@
                    + "')"@,
            )
        },
{
}

fn first_blank(body: &CreateDerivedBody) -> (r: Option<&'static str>)
    ensures
        match r {
            Some(m) => blank_name(*body) == Some(m@),
            None => blank_name(*body) is None,
        },
{
    if is_blank(body.source_app.as_str()) {
        Some("source_app must not be empty")
    } else if is_blank(body.source_dataset.as_str()) {
        Some("source_dataset must not be empty")
    } else if is_blank(body.target_dataset.as_str()) {
        Some("target_dataset must not be empty")
    } else {
        None
    }
}

fn check_project(fields: &[(String, String)]) -> (r: Option<String>)
    ensures
        match r {
            Some(m) => bad_project(fields@) == Some(m@),
            None => bad_project(fields@) is None,
        },
{
    let mut i: usize = 0;
    assert(fields@.skip(0) =~= fields@);
    while i < fields.len()
        invariant
            i <= fields@.len(),
            bad_project(fields@) == bad_project(fields@.skip(i as int)),
        decreases fields@.len() - i,
    {
        assert(fields@.skip(i as int)[0] == fields@[i as int]);
        assert(fields@.skip(i as int).drop_first() =~= fields@.skip(i + 1));
        if !starts_with(&chars(fields[i].1.as_str()), "$.") {
            let mut m = owned("project field '");
            m.append(fields[i].0.as_str());
            m.append("' must map to a JSON path starting with '$.' (got '");
            m.append(fields[i].1.as_str());
            m.append("')");
            return Some(m);
        }
        i += 1;
    }
    None
}

fn check_lookup(lookup: &Option<LookupBody>) -> (r: Option<String>)
    ensures
        match r {
            Some(m) => bad_lookup(*lookup) == Some(m@),
            None => bad_lookup(*lookup) is None,
        },
{
    match lookup {
        None => None,
        Some(l) => {
            if is_blank(l.dataset.as_str()) || is_blank(l.merge_as.as_str()) {
                return Some(owned("lookup.dataset and lookup.merge_as must not be empty"));
            }
            if !starts_with(&chars(l.key_expr.as_str()), "$.") {
                let mut m = owned("lookup.key_expr must be a JSON path starting with '$.' (got '");
                m.append(l.key_expr.as_str());
                m.append("')");
                return Some(m);
            }
            None
        },
    }
}

fn check_filters(specs: &[String]) -> (r: Option<ApiError>)
    ensures
        match r {
            Some(e) => e.status == 400 && filters_refused(texts(specs@), e.message@),
            None => filters_ok(texts(specs@)),
        },
{
    let ghost want = texts(specs@);
    match parse_filters(specs) {
        Ok(v) => {
            assert forall|i: int| 0 <= i < want.len() implies #[trigger] filter_of(
                want[i],
            ) is Ok by {
                assert(filter_of(specs@[i]@) == Ok::<FilterModel, Seq<char>>(v@[i]@));
            }
            None
        },
        Err(e) => {
            proof {
                let i = choose|i: int|
                    0 <= i < specs@.len() && #[trigger] filter_of(specs@[i]@) == Err::<
                        FilterModel,
                        Seq<char>,
                    >(e.message@) && forall|k: int|
                        0 <= k < i ==> #[trigger] filter_of(specs@[k]@) is Ok;
                assert(filter_of(want[i]) == Err::<FilterModel, Seq<char>>(e.message@));
                assert forall|k: int| 0 <= k < i implies #[trigger] filter_of(want[k]) is Ok by {
                    assert(filter_of(specs@[k]@) is Ok);
                }
            }
            Some(e)
        },
    }
}

/// Reads a request for a derived dataset: the names, then the filters, the
/// projection, the lookup, and that grouping and aggregates come together.
pub fn create_derived(body: CreateDerivedBody) -> (r: Result<NewDerivedSpec, ApiError>)
    ensures
        if blank_name(body) is Some {
            r matches Err(e) && e@ == (400u16, blank_name(body)->0)
        } else if !filters_ok(body_filters(body)) {
            r matches Err(e) && e.status == 400 && filters_refused(body_filters(body), e.message@)
        } else if bad_project(body_project(body)) is Some {
            r matches Err(e) && e@ == (400u16, bad_project(body_project(body))->0)
        } else if bad_lookup(body.lookup) is Some {
            r matches Err(e) && e@ == (400u16, bad_lookup(body.lookup)->0)
        } else if half_group(body) {
            r matches Err(e) && e@ == (400u16, "group_by and aggregates must be provided together"@)
        } else {
            &&& r matches Ok(spec)
            &&& spec.source_app == body.source_app
            &&& spec.source_dataset == body.source_dataset
            &&& spec.target_dataset == body.target_dataset
            &&& texts(spec.filters@) == body_filters(body)
            &&& spec.project@ == body_project(body)
            &&& spec.lookup == body.lookup
            &&& match spec.group {
                Some(g) => body.group_by == Some(g.group_by) && body.aggregates == Some(
                    g.aggregates,
                ),
                None => body.group_by is None && body.aggregates is None,
            }
        },
{
    if let Some(m) = first_blank(&body) {
        return Err(ApiError::fixed(BAD_REQUEST, m));
    }
    let ghost whole = body;
    let filters = match body.filters {
        Some(specs) => specs,
        None => Vec::new(),
    };
    assert(texts(filters@) =~= body_filters(whole));
    if let Some(e) = check_filters(&filters) {
        return Err(e);
    }
    let project = match body.project {
        Some(fields) => fields,
        None => Vec::new(),
    };
    assert(project@ =~= body_project(whole));
    if let Some(m) = check_project(&project) {
        return Err(ApiError::new(BAD_REQUEST, m));
    }
    if let Some(m) = check_lookup(&body.lookup) {
        return Err(ApiError::new(BAD_REQUEST, m));
    }
    let group = match (body.group_by, body.aggregates) {
        (Some(group_by), Some(aggregates)) => Some(DerivedGroup { group_by, aggregates }),
        (None, None) => None,
        _ => {
            return Err(
                ApiError::fixed(BAD_REQUEST, "group_by and aggregates must be provided together"),
            );
        },
    };
    Ok(
        NewDerivedSpec {
            source_app: body.source_app,
            source_dataset: body.source_dataset,
            target_dataset: body.target_dataset,
            filters,
            project,
            lookup: body.lookup,
            group,
        },
    )
}

/// The refusal of a specification nobody stored.
pub fn unknown_spec(id: &str) -> (r: ApiError)
    ensures
        r@ == (404u16, "unknown derived spec '"@ + id@ + "'"@),
{
    let mut m = owned("unknown derived spec '");
    m.append(id);
    m.append("'");
    ApiError::new(NOT_FOUND, m)
}

/// What a request says about a backfill.
#[derive(Debug, PartialEq)]
pub struct BackfillBody {
    pub batch: Option<i64>,
    pub max_rows: Option<i64>,
    pub cursor: Option<String>,
}

/// How a backfill runs.
#[derive(Debug, PartialEq)]
pub struct BackfillOpts {
    pub batch: i64,
    pub max_rows: i64,
    pub cursor: Option<String>,
}

/// Rows one backfill request may scan when it names no number.
pub const DEFAULT_BACKFILL_MAX_ROWS: i64 = 50_000;

/// Whether and how a specification is backfilled, given whether it is enabled, or
/// that it is unknown. A disabled one is fully inert.
pub fn backfill_derived(id: &str, enabled: Option<bool>, body: Option<BackfillBody>) -> (r: Result<
    BackfillOpts,
    ApiError,
>)
    ensures
        match enabled {
            None => r matches Err(e) && e@ == (404u16, "unknown derived spec '"@ + id@ + "'"@),
            Some(false) => r matches Err(e) && e@ == (
                409u16,
                "derived spec '"@ + id@ + "' is disabled"@,
            ),
            Some(true) => {
                &&& r matches Ok(o)
                &&& o.batch == clamped(
                    match body {
                        Some(BackfillBody { batch: Some(n), .. }) => n,
                        _ => 500,
                    },
                    1,
                    1000,
                )
                &&& o.max_rows == match body {
                    Some(BackfillBody { max_rows: Some(n), .. }) => n,
                    _ => 50_000,
                }
                &&& o.cursor == match body {
                    Some(b) => b.cursor,
                    None => None,
                }
            },
        },
{
    match enabled {
        None => Err(unknown_spec(id)),
        Some(on) => {
            if !on {
                let mut m = owned("derived spec '");
                m.append(id);
                m.append("' is disabled");
                return Err(ApiError::new(CONFLICT, m));
            }
            let b = match body {
                Some(b) => b,
                None => BackfillBody { batch: None, max_rows: None, cursor: None },
            };
            let batch: i64 = match b.batch {
                Some(n) => n,
                None => 500,
            };
            let max_rows: i64 = match b.max_rows {
                Some(n) => n,
                None => DEFAULT_BACKFILL_MAX_ROWS,
            };
            Ok(BackfillOpts { batch: clamp(batch, 1, 1000), max_rows, cursor: b.cursor })
        },
    }
}

} // verus!
