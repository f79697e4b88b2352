//! The dry run of extraction rules against one document, and how large a request
//! body may be.

use vstd::prelude::*;

use crate::error::{code_of, error_code, ApiError, BAD_REQUEST, PAYLOAD_TOO_LARGE};
use crate::json::{lemma_object_model, lemma_put, models, Json, JsonModel};
use crate::number::{decimal, push_u64};
use crate::provisioner::{FetchRequest, FetchStrategy};
use crate::search::{is_web_url, web_url};
use crate::text::{owned, same};

verus! {

/// The ceiling on a request body.
pub const BODY_LIMIT_BYTES: usize = 1_048_576;

/// The ceiling on the body of a preview, which carries a whole page.
pub const PREVIEW_BODY_LIMIT_BYTES: usize = 8_388_608;

/// The ceiling on a page that a preview fetches itself.
pub const PREVIEW_MAX_BODY_BYTES: usize = 8_388_608;

/// Seconds a preview's fetch may take.
pub const PREVIEW_FETCH_TIMEOUT_SECS: u64 = 15;

/// The one operation that takes a document rather than configuration.
pub const PREVIEW_OPERATION: &'static str = "POST /extract/preview";

/// How large the body of an operation may be.
pub open spec fn limit_of(operation: Seq<char>) -> int {
    if operation == PREVIEW_OPERATION@ {
        8_388_608
    } else {
        1_048_576
    }
}

/// How large the body of an operation, as its method and path, may be.
pub fn body_limit(operation: &str) -> (r: usize)
    ensures
        r == limit_of(operation@),
{
    if same(operation, PREVIEW_OPERATION) {
        PREVIEW_BODY_LIMIT_BYTES
    } else {
        BODY_LIMIT_BYTES
    }
}

/// Only a preview takes a document, and it takes the same page whichever way the
/// page comes: its body may be as large as a page that it fetches itself, and
/// every other operation takes less.
pub proof fn law_only_a_preview_takes_a_document(operation: Seq<char>)
    ensures
        limit_of(PREVIEW_OPERATION@) == PREVIEW_MAX_BODY_BYTES,
        limit_of(PREVIEW_OPERATION@) == 8 * 1024 * 1024,
        operation != PREVIEW_OPERATION@ ==> limit_of(operation) == 1024 * 1024,
        operation != PREVIEW_OPERATION@ ==> limit_of(operation) < limit_of(PREVIEW_OPERATION@),
{
}

/// The document of a preview.
#[derive(Debug, PartialEq)]
pub enum PreviewDoc {
    Inline(String),
    Fetch(FetchRequest),
}

/// Where a preview's document comes from: exactly one of the text itself and an
/// address. The fetch goes through the plain HTTP tier alone, so that a preview
/// never spends money.
pub fn preview_doc(html: Option<String>, url: Option<String>) -> (r: Result<PreviewDoc, ApiError>)
    ensures
        match (html, url) {
            (Some(_), Some(_)) => r matches Err(e) && e@ == (
                400u16,
                "provide exactly one of 'html' or 'url', not both"@,
            ),
            (None, None) => r matches Err(e) && e@ == (
                400u16,
                "provide exactly one of 'html' or 'url'"@,
            ),
            (Some(text), None) => r == Ok::<PreviewDoc, ApiError>(PreviewDoc::Inline(text)),
            (None, Some(u)) => if is_web_url(u@) {
                &&& r matches Ok(PreviewDoc::Fetch(q))
                &&& q.url == u && q.strategy == FetchStrategy::Http
                &&& !q.to_markdown && !q.use_recipes && q.archive_max_age is None
            } else {
                r matches Err(e) && e@ == (400u16, "'url' must be http(s)"@)
            },
        },
{
    match (html, url) {
        (Some(_), Some(_)) => Err(
            ApiError::fixed(BAD_REQUEST, "provide exactly one of 'html' or 'url', not both"),
        ),
        (None, None) => Err(ApiError::fixed(BAD_REQUEST, "provide exactly one of 'html' or 'url'")),
        (Some(text), None) => Ok(PreviewDoc::Inline(text)),
        (None, Some(u)) => {
            if !web_url(u.as_str()) {
                return Err(ApiError::fixed(BAD_REQUEST, "'url' must be http(s)"));
            }
            Ok(
                PreviewDoc::Fetch(
                    FetchRequest {
                        url: u,
                        strategy: FetchStrategy::Http,
                        to_markdown: false,
                        use_recipes: false,
                        archive_max_age: None,
                    },
                ),
            )
        },
    }
}

/// How a preview's fetch ended.
#[derive(Debug, PartialEq)]
pub enum PreviewFetch {
    /// The page, and its size in bytes.
    Page { html: String, bytes: usize },
    TimedOut,
    Failed(String),
}

/// The page a preview fetched, within its budget.
pub fn fetch_preview_doc(fetched: PreviewFetch) -> (r: Result<String, ApiError>)
    ensures
        match fetched {
            PreviewFetch::TimedOut => r matches Err(e) && e@ == (
                400u16,
                "fetch exceeded the 15s preview budget"@,
            ),
            PreviewFetch::Failed(why) => r matches Err(e) && e@ == (
                400u16,
                "failed to fetch url: "@ + why@,
            ),
            PreviewFetch::Page { html, bytes } => if bytes > 8_388_608 {
                r matches Err(e) && e@ == (
                    413u16,
                    "fetched body is "@ + decimal(bytes as int)
                        + " bytes; the preview budget is 8388608 bytes"@,
                )
            } else {
                r == Ok::<String, ApiError>(html)
            },
        },
{
    match fetched {
        PreviewFetch::TimedOut => Err(
            ApiError::fixed(BAD_REQUEST, "fetch exceeded the 15s preview budget"),
        ),
        PreviewFetch::Failed(why) => {
            let mut m = owned("failed to fetch url: ");
            m.append(why.as_str());
            Err(ApiError::new(BAD_REQUEST, m))
        },
        PreviewFetch::Page { html, bytes } => {
            if bytes > PREVIEW_MAX_BODY_BYTES {
                let mut m = owned("fetched body is ");
                push_u64(&mut m, bytes as u64);
                m.append(" bytes; the preview budget is 8388608 bytes");
                return Err(ApiError::new(PAYLOAD_TOO_LARGE, m));
            }
            Ok(html)
        },
    }
}

/// The fields that rules are given for, in order; rules that are no object are
/// refused.
pub fn rule_fields(rules: &Json) -> (r: Result<Vec<(String, Json)>, ApiError>)
    ensures
        match rules@ {
            JsonModel::Object(entries) => {
                &&& r matches Ok(v)
                &&& v@.len() == entries.len()
                &&& forall|i: int|
                    0 <= i < entries.len() ==> (#[trigger] v@[i]).0@ == entries[i].0 && v@[i].1@
                        == entries[i].1
            },
            _ => r matches Err(e) && e@ == (
                400u16,
                "'rules' must be a JSON object mapping field -> rule"@,
            ),
        },
{
    match rules {
        Json::Object(entries) => {
            proof {
                lemma_object_model(*entries);
            }
            let mut out: Vec<(String, Json)> = Vec::new();
            let mut i: usize = 0;
            while i < entries.len()
                invariant
                    i <= entries@.len(),
                    out@.len() == i,
                    forall|k: int|
                        0 <= k < i ==> (#[trigger] out@[k]).0@ == entries@[k].0@ && out@[k].1@
                            == entries@[k].1@,
                decreases entries@.len() - i,
            {
                out.push((owned(entries[i].0.as_str()), entries[i].1.copy()));
                i += 1;
            }
            Ok(out)
        },
        _ => Err(
            ApiError::fixed(BAD_REQUEST, "'rules' must be a JSON object mapping field -> rule"),
        ),
    }
}

/// The diagnosis of one field that did not compile.
pub open spec fn field_error(field: Seq<char>, why: Seq<char>) -> JsonModel {
    JsonModel::object().put("field"@, JsonModel::Text(field)).put("error"@, JsonModel::Text(why))
}

/// The diagnoses of the fields that did not compile, in order.
pub open spec fn field_errors(compiled: Seq<(String, Result<(), String>)>) -> Seq<JsonModel>
    decreases compiled.len(),
{
    if compiled.len() == 0 {
        Seq::empty()
    } else {
        let rest = field_errors(compiled.drop_last());
        match compiled.last().1 {
            Ok(_) => rest,
            Err(why) => rest.push(field_error(compiled.last().0@, why@)),
        }
    }
}

/// What is reported is one entry for each field that did not compile, in their
/// order, and none for a field that did.
pub proof fn law_only_bad_fields_are_reported(compiled: Seq<(String, Result<(), String>)>)
    ensures
        field_errors(compiled) == compiled.filter(
            |c: (String, Result<(), String>)| c.1 is Err,
        ).map_values(|c: (String, Result<(), String>)| field_error(c.0@, c.1->Err_0@)),
    decreases compiled.len(),
{
    reveal(Seq::filter);
    let bad = |c: (String, Result<(), String>)| c.1 is Err;
    let told = |c: (String, Result<(), String>)| field_error(c.0@, c.1->Err_0@);
    if compiled.len() > 0 {
        law_only_bad_fields_are_reported(compiled.drop_last());
    }
    assert(field_errors(compiled) =~= compiled.filter(bad).map_values(told));
}

/// The body of a refusal that covers every field that did not compile.
pub open spec fn compile_refusal_body(compiled: Seq<(String, Result<(), String>)>) -> JsonModel {
    JsonModel::object().put("error"@, JsonModel::Text("rule compilation failed"@)).put(
        "code"@,
        JsonModel::Text(code_of(400)),
    ).put("fields"@, JsonModel::Array(field_errors(compiled)))
}

/// A preview whose rules do not compile is refused as a bad request, with every field
/// that did not.
pub proof fn law_a_refused_preview_names_its_fields(compiled: Seq<(String, Result<(), String>)>)
    ensures
        ({
            let said = compile_refusal_body(compiled);
            &&& said.get("error"@) == Some(JsonModel::Text("rule compilation failed"@))
            &&& said.get("code"@) == Some(JsonModel::Text("bad_request"@))
            &&& said.get("fields"@) == Some(JsonModel::Array(field_errors(compiled)))
        }),
{
    reveal_strlit("error");
    reveal_strlit("code");
    reveal_strlit("fields");
    let m0 = JsonModel::object();
    let error = JsonModel::Text("rule compilation failed"@);
    lemma_put(m0, "error"@, error);
    let m1 = m0.put("error"@, error);
    let code = JsonModel::Text(code_of(400));
    lemma_put(m1, "code"@, code);
    let m2 = m1.put("code"@, code);
    lemma_put(m2, "fields"@, JsonModel::Array(field_errors(compiled)));
}

/// The body of a refusal that covers every field that did not compile, or nothing
/// when all of them did.
pub fn compile_refusal(compiled: &[(String, Result<(), String>)]) -> (r: Option<Json>)
    ensures
        r is None <==> field_errors(compiled@).len() == 0,
        r matches Some(j) ==> j@ == compile_refusal_body(compiled@),
{
    let mut errors: Vec<Json> = Vec::new();
    let mut i: usize = 0;
    assert(models(errors@) =~= Seq::empty());
    while i < compiled.len()
        invariant
            i <= compiled@.len(),
            models(errors@) == field_errors(compiled@.take(i as int)),
        decreases compiled@.len() - i,
    {
        assert(compiled@.take(i + 1).drop_last() =~= compiled@.take(i as int));
        if let Err(why) = &compiled[i].1 {
            let mut row = Json::object();
            row.set("field", Json::text(compiled[i].0.as_str()));
            row.set("error", Json::text(why.as_str()));
            let ghost had = errors@;
            errors.push(row);
            assert(models(errors@) =~= models(had).push(row@));
        }
        i += 1;
    }
    assert(compiled@.take(compiled@.len() as int) =~= compiled@);
    assert(models(errors@).len() == errors@.len());
    if errors.len() == 0 {
        return None;
    }
    let mut out = Json::object();
    out.set("error", Json::text("rule compilation failed"));
    out.set("code", Json::text(error_code(BAD_REQUEST)));
    out.set("fields", Json::array(errors));
    Some(out)
}

/// A preview reports all of its bad fields at once: one diagnosis for each field
/// that did not compile.
pub proof fn law_every_bad_field_is_reported(compiled: Seq<(String, Result<(), String>)>, i: int)
    requires
        0 <= i < compiled.len(),
        compiled[i].1 is Err,
    ensures
        field_errors(compiled).contains(field_error(compiled[i].0@, compiled[i].1->Err_0@)),
    decreases compiled.len(),
{
    let rest = compiled.drop_last();
    let e = field_error(compiled[i].0@, compiled[i].1->Err_0@);
    if i == compiled.len() - 1 {
        assert(field_errors(compiled).last() == e);
    } else {
        law_every_bad_field_is_reported(rest, i);
        let k = choose|k: int| 0 <= k < field_errors(rest).len() && field_errors(rest)[k] == e;
        assert(field_errors(compiled)[k] == e);
    }
}

/// What a rule did on the document.
#[derive(Debug, Clone, Copy, PartialEq, Eq, Structural)]
pub enum FieldStatus {
    Matched,
    Empty,
    Error,
}

/// How many fields matched.
pub open spec fn matched(statuses: Seq<FieldStatus>) -> nat
    decreases statuses.len(),
{
    if statuses.len() == 0 {
        0
    } else {
        matched(statuses.drop_last()) + if statuses.last() == FieldStatus::Matched {
            1nat
        } else {
            0nat
        }
    }
}

/// The fields that matched are those whose status says so, counted one by one.
pub proof fn law_matched_fields_are_counted(statuses: Seq<FieldStatus>)
    ensures
        matched(statuses) == statuses.filter(|s: FieldStatus| s is Matched).len(),
        matched(statuses) <= statuses.len(),
    decreases statuses.len(),
{
    reveal(Seq::filter);
    if statuses.len() > 0 {
        law_matched_fields_are_counted(statuses.drop_last());
    }
}

/// The body of a preview that ran: the values, and how many of the fields matched.
pub open spec fn preview_body(
    values: JsonModel,
    report: JsonModel,
    statuses: Seq<FieldStatus>,
) -> JsonModel {
    JsonModel::object().put("values"@, values).put("report"@, report).put(
        "fields_matched"@,
        JsonModel::integer(matched(statuses) as int),
    ).put("fields_total"@, JsonModel::integer(statuses.len() as int))
}

/// Each member of a preview holds what it is named after.
pub proof fn law_a_preview_names_what_it_shows(
    values: JsonModel,
    report: JsonModel,
    statuses: Seq<FieldStatus>,
)
    ensures
        ({
            let shown = preview_body(values, report, statuses);
            &&& shown.get("values"@) == Some(values)
            &&& shown.get("report"@) == Some(report)
            &&& shown.get("fields_matched"@) == Some(JsonModel::integer(matched(statuses) as int))
            &&& shown.get("fields_total"@) == Some(JsonModel::integer(statuses.len() as int))
        }),
{
    reveal_strlit("values");
    reveal_strlit("report");
    reveal_strlit("fields_matched");
    reveal_strlit("fields_total");
    assert("values"@[0] != "report"@[0]);
    let m0 = JsonModel::object();
    let v1 = values;
    lemma_put(m0, "values"@, v1);
    let m1 = m0.put("values"@, v1);
    let v2 = report;
    lemma_put(m1, "report"@, v2);
    let m2 = m1.put("report"@, v2);
    let v3 = JsonModel::integer(matched(statuses) as int);
    lemma_put(m2, "fields_matched"@, v3);
    let m3 = m2.put("fields_matched"@, v3);
    let v4 = JsonModel::integer(statuses.len() as int);
    lemma_put(m3, "fields_total"@, v4);
}

/// Answers a preview, with its status and its body: a refusal that covers every field
/// that did not compile, else the values and how many of the fields matched.
pub fn extract_preview(
    compiled: &[(String, Result<(), String>)],
    values: &Json,
    report: &Json,
    statuses: &[FieldStatus],
) -> (r: (u16, Json))
    ensures
        (r.0, r.1@) == if field_errors(compiled@).len() > 0 {
            (400u16, compile_refusal_body(compiled@))
        } else {
            (200u16, preview_body(values@, report@, statuses@))
        },
{
    if let Some(refusal) = compile_refusal(compiled) {
        return (BAD_REQUEST, refusal);
    }
    let mut hits: u64 = 0;
    let mut i: usize = 0;
    while i < statuses.len()
        invariant
            i <= statuses@.len(),
            hits <= i,
            hits == matched(statuses@.take(i as int)),
        decreases statuses@.len() - i,
    {
        assert(statuses@.take(i + 1).drop_last() =~= statuses@.take(i as int));
        if statuses[i] == FieldStatus::Matched {
            hits += 1;
        }
        i += 1;
    }
    assert(statuses@.take(statuses@.len() as int) =~= statuses@);
    let mut out = Json::object();
    out.set("values", values.copy());
    out.set("report", report.copy());
    out.set("fields_matched", Json::unsigned(hits));
    out.set("fields_total", Json::unsigned(statuses.len() as u64));
    (200, out)
}

} // verus!
