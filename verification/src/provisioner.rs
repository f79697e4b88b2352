//! The lifecycle of a source proposal: what is listed of it, the check of its
//! drafted rules against a fresh fetch, and its promotion. Nothing here
//! writes the catalog.

use vstd::prelude::*;

use crate::clock::{age_of, age_seconds, Instant};
use crate::error::{ApiError, BAD_REQUEST, CONFLICT, NOT_FOUND};
use crate::json::{law_put_keeps_others, lemma_put, put_entry, Json, JsonModel};
use crate::text::{begins, owned};

verus! {

pub const STATUS_PLANNED: &'static str = "planned";

pub const STATUS_VALIDATED: &'static str = "validated";

pub const STATUS_FAILED: &'static str = "failed";

pub const STATUS_PROMOTED: &'static str = "promoted";

/// The refusal of a proposal nobody made.
pub fn unknown_proposal(key: &str) -> (r: ApiError)
    ensures
        r@ == (404u16, "no proposal '"@ + key@ + "'"@),
{
    let mut m = owned("no proposal '");
    m.append(key);
    m.append("'");
    ApiError::new(NOT_FOUND, m)
}

/// Where a proposal stands; one that does not say is planned.
pub open spec fn status_of(data: JsonModel) -> Seq<char> {
    match data.text_at("status"@) {
        Some(s) => s,
        None => STATUS_PLANNED@,
    }
}

/// Where a proposal stands.
pub fn proposal_status(data: &Json) -> (r: String)
    ensures
        r@ == status_of(data@),
{
    match data.text_at("status") {
        Some(s) => owned(s),
        None => owned(STATUS_PLANNED),
    }
}

/// What decides whether a proposal has expired: its status and its age.
pub fn proposal_age(data: &Json, updated_at: Instant, now: Instant) -> (r: (String, i64))
    ensures
        r.0@ == status_of(data@),
        r.1 == age_of(now@, updated_at@),
        r.1 >= 0,
{
    (proposal_status(data), age_seconds(now, updated_at))
}

/// A stored proposal, its stamps as they are shown.
#[derive(Debug, PartialEq)]
pub struct ProposalRecord {
    pub key: String,
    pub data: Json,
    pub first_seen: String,
    pub updated_at: String,
}

/// A field of the drafted catalog row.
pub open spec fn row_field(data: JsonModel, field: Seq<char>) -> Option<JsonModel> {
    match data.get("catalog_row"@) {
        Some(row) => row.get(field),
        None => None,
    }
}

/// A field of the catalog row is read off the row the proposal holds, and off nothing
/// else.
pub proof fn law_row_fields_are_the_catalog_rows(data: JsonModel, row: JsonModel, field: Seq<char>)
    ensures
        data.get("catalog_row"@) == Some(row) ==> row_field(data, field) == row.get(field),
        data.get("catalog_row"@) is None ==> row_field(data, field) is None,
{
}

/// The row a backlog is scanned by.
pub open spec fn summary_of(record: ProposalRecord, age_secs: i64, expired: bool) -> JsonModel {
    let data = record.data@;
    JsonModel::object().put("key"@, JsonModel::Text(record.key@)).put(
        "prompt"@,
        JsonModel::or_null(data.get("prompt"@)),
    ).put("status"@, JsonModel::Text(status_of(data))).put(
        "expired"@,
        JsonModel::Bool(expired),
    ).put("verdict"@, JsonModel::or_null(data.get("verdict"@))).put(
        "accepted"@,
        JsonModel::or_null(data.get("accepted"@)),
    ).put(
        "catalog_confidence"@,
        JsonModel::or_null(data.get("catalog_confidence"@)),
    ).put("engine"@, JsonModel::or_null(row_field(data, "engine"@))).put(
        "url"@,
        JsonModel::or_null(row_field(data, "url"@)),
    ).put("intended_dataset"@, JsonModel::or_null(data.get("intended_dataset"@))).put(
        "first_seen"@,
        JsonModel::Text(record.first_seen@),
    ).put("updated_at"@, JsonModel::Text(record.updated_at@)).put(
        "age_secs"@,
        JsonModel::integer(age_secs as int),
    )
}

/// Each member of a summary holds what the proposal keeps under that name; the
/// engine and the url are those of its catalog row.
pub proof fn law_a_summary_names_what_it_shows(record: ProposalRecord, age_secs: i64, expired: bool)
    ensures
        ({
            let data = record.data@;
            let shown = summary_of(record, age_secs, expired);
            &&& shown.get("key"@) == Some(JsonModel::Text(record.key@))
            &&& shown.get("prompt"@) == Some(JsonModel::or_null(data.get("prompt"@)))
            &&& shown.get("status"@) == Some(JsonModel::Text(status_of(data)))
            &&& shown.get("expired"@) == Some(JsonModel::Bool(expired))
            &&& shown.get("verdict"@) == Some(JsonModel::or_null(data.get("verdict"@)))
            &&& shown.get("accepted"@) == Some(JsonModel::or_null(data.get("accepted"@)))
            &&& shown.get("catalog_confidence"@) == Some(
                JsonModel::or_null(data.get("catalog_confidence"@)),
            )
            &&& shown.get("engine"@) == Some(JsonModel::or_null(row_field(data, "engine"@)))
            &&& shown.get("url"@) == Some(JsonModel::or_null(row_field(data, "url"@)))
            &&& shown.get("intended_dataset"@) == Some(
                JsonModel::or_null(data.get("intended_dataset"@)),
            )
            &&& shown.get("first_seen"@) == Some(JsonModel::Text(record.first_seen@))
            &&& shown.get("updated_at"@) == Some(JsonModel::Text(record.updated_at@))
            &&& shown.get("age_secs"@) == Some(JsonModel::integer(age_secs as int))
        }),
{
    reveal_strlit("key");
    reveal_strlit("prompt");
    reveal_strlit("status");
    reveal_strlit("expired");
    reveal_strlit("verdict");
    reveal_strlit("accepted");
    reveal_strlit("catalog_confidence");
    reveal_strlit("engine");
    reveal_strlit("url");
    reveal_strlit("intended_dataset");
    reveal_strlit("first_seen");
    reveal_strlit("updated_at");
    reveal_strlit("age_secs");
    assert("key"@[0] != "url"@[0]);
    assert("prompt"@[0] != "status"@[0]);
    assert("prompt"@[0] != "engine"@[0]);
    assert("status"@[0] != "engine"@[0]);
    assert("expired"@[0] != "verdict"@[0]);
    assert("accepted"@[1] != "age_secs"@[1]);
    assert("first_seen"@[0] != "updated_at"@[0]);
    let data = record.data@;
    let m0 = JsonModel::object();
    let v1 = JsonModel::Text(record.key@);
    lemma_put(m0, "key"@, v1);
    let m1 = m0.put("key"@, v1);
    let v2 = JsonModel::or_null(data.get("prompt"@));
    lemma_put(m1, "prompt"@, v2);
    let m2 = m1.put("prompt"@, v2);
    let v3 = JsonModel::Text(status_of(data));
    lemma_put(m2, "status"@, v3);
    let m3 = m2.put("status"@, v3);
    let v4 = JsonModel::Bool(expired);
    lemma_put(m3, "expired"@, v4);
    let m4 = m3.put("expired"@, v4);
    let v5 = JsonModel::or_null(data.get("verdict"@));
    lemma_put(m4, "verdict"@, v5);
    let m5 = m4.put("verdict"@, v5);
    let v6 = JsonModel::or_null(data.get("accepted"@));
    lemma_put(m5, "accepted"@, v6);
    let m6 = m5.put("accepted"@, v6);
    let v7 = JsonModel::or_null(data.get("catalog_confidence"@));
    lemma_put(m6, "catalog_confidence"@, v7);
    let m7 = m6.put("catalog_confidence"@, v7);
    let v8 = JsonModel::or_null(row_field(data, "engine"@));
    lemma_put(m7, "engine"@, v8);
    let m8 = m7.put("engine"@, v8);
    let v9 = JsonModel::or_null(row_field(data, "url"@));
    lemma_put(m8, "url"@, v9);
    let m9 = m8.put("url"@, v9);
    let v10 = JsonModel::or_null(data.get("intended_dataset"@));
    lemma_put(m9, "intended_dataset"@, v10);
    let m10 = m9.put("intended_dataset"@, v10);
    let v11 = JsonModel::Text(record.first_seen@);
    lemma_put(m10, "first_seen"@, v11);
    let m11 = m10.put("first_seen"@, v11);
    let v12 = JsonModel::Text(record.updated_at@);
    lemma_put(m11, "updated_at"@, v12);
    let m12 = m11.put("updated_at"@, v12);
    let v13 = JsonModel::integer(age_secs as int);
    lemma_put(m12, "age_secs"@, v13);
}

fn row_value(data: &Json, field: &str) -> (r: Json)
    ensures
        r@ == JsonModel::or_null(row_field(data@, field@)),
{
    match data.get("catalog_row") {
        Some(row) => row.at(field),
        None => Json::Null,
    }
}

/// The row a backlog is scanned by, given its age and whether it expired.
/// Nothing stamps the expiry onto the stored record.
pub fn proposal_summary(record: &ProposalRecord, age_secs: i64, expired: bool) -> (r: Json)
    ensures
        r@ == summary_of(*record, age_secs, expired),
{
    let mut out = Json::object();
    out.set("key", Json::text(record.key.as_str()));
    out.set("prompt", record.data.at("prompt"));
    out.set("status", Json::text(proposal_status(&record.data).as_str()));
    out.set("expired", Json::Bool(expired));
    out.set("verdict", record.data.at("verdict"));
    out.set("accepted", record.data.at("accepted"));
    out.set("catalog_confidence", record.data.at("catalog_confidence"));
    out.set("engine", row_value(&record.data, "engine"));
    out.set("url", row_value(&record.data, "url"));
    out.set("intended_dataset", record.data.at("intended_dataset"));
    out.set("first_seen", Json::text(record.first_seen.as_str()));
    out.set("updated_at", Json::text(record.updated_at.as_str()));
    out.set("age_secs", Json::integer(age_secs));
    out
}

/// How a page is fetched.
#[derive(Debug, Clone, Copy, PartialEq, Eq, Structural)]
pub enum FetchStrategy {
    /// The tiers in turn.
    Auto,
    /// The plain HTTP tier alone.
    Http,
}

/// A fetch of one page.
#[derive(Debug, PartialEq)]
pub struct FetchRequest {
    pub url: String,
    pub strategy: FetchStrategy,
    pub to_markdown: bool,
    pub use_recipes: bool,
    /// How old an archived copy may be to stand in for a fetch, in seconds.
    pub archive_max_age: Option<u64>,
}

/// The fetch a proposal is checked against. No archived copy may stand in for it:
/// the check is for drift that the compile could not have seen.
pub fn fresh_validate_request(url: &str) -> (r: FetchRequest)
    ensures
        r.url@ == url@,
        r.strategy == FetchStrategy::Auto,
        r.to_markdown,
        r.use_recipes,
        r.archive_max_age is None,
{
    FetchRequest {
        url: owned(url),
        strategy: FetchStrategy::Auto,
        to_markdown: true,
        use_recipes: true,
        archive_max_age: None,
    }
}

/// A refusal that names the proposal.
pub open spec fn about(key: Seq<char>, rest: Seq<char>) -> Seq<char> {
    "proposal '"@ + key + "': "@ + rest
}

fn refuse(key: &str, rest: &str) -> (r: ApiError)
    ensures
        r@ == (400u16, about(key@, rest@)),
{
    let mut m = owned("proposal '");
    m.append(key);
    m.append("': ");
    m.append(rest);
    ApiError::new(BAD_REQUEST, m)
}

/// The URL a proposal is checked against.
pub open spec fn proposal_url(data: JsonModel) -> Option<Seq<char>> {
    match row_field(data, "url"@) {
        Some(v) => v.as_text(),
        None => None,
    }
}

/// Why a proposal cannot be checked: its stored rules no longer read, or its row names
/// no address.
pub open spec fn check_refusal(
    key: Seq<char>,
    data: JsonModel,
    rules: Result<(), String>,
) -> Option<Seq<char>> {
    match rules {
        Err(why) => Some(about(key, "stored rule_set no longer parses: "@ + why@)),
        Ok(_) => match proposal_url(data) {
            None => Some(about(key, "catalog_row has no url to validate"@)),
            Some(_) => None,
        },
    }
}

/// A proposal can be validated exactly where its rules still parse and its catalog
/// row holds a url; a proposal that says no status is planned.
pub proof fn law_a_proposal_is_validated_by_its_row(
    key: Seq<char>,
    data: JsonModel,
    rules: Result<(), String>,
)
    ensures
        check_refusal(key, data, rules) is None <==> rules is Ok && (data.get(
            "catalog_row"@,
        ) matches Some(row) && (row.get("url"@) matches Some(url) && url is Text)),
        data.text_at("status"@) is None ==> status_of(data) == "planned"@,
        data.text_at("status"@) matches Some(s) ==> status_of(data) == s,
{
}

/// What a check fetches, given whether the stored rules still read.
pub fn validate_proposal(key: &str, data: &Json, rules: &Result<(), String>) -> (r: Result<
    FetchRequest,
    ApiError,
>)
    ensures
        match check_refusal(key@, data@, *rules) {
            Some(m) => r matches Err(e) && e@ == (400u16, m),
            None => {
                &&& r matches Ok(q)
                &&& proposal_url(data@) == Some(q.url@)
                &&& q.strategy == FetchStrategy::Auto && q.to_markdown && q.use_recipes
                &&& q.archive_max_age is None
            },
        },
{
    if let Err(why) = rules {
        let mut m = owned("stored rule_set no longer parses: ");
        m.append(why.as_str());
        return Err(refuse(key, m.as_str()));
    }
    let url = match data.get("catalog_row") {
        Some(row) => row.text_at("url"),
        None => None,
    };
    match url {
        Some(u) => Ok(fresh_validate_request(u)),
        None => Err(refuse(key, "catalog_row has no url to validate")),
    }
}

/// The status a check leaves.
pub open spec fn checked_status(accepted: bool) -> Seq<char> {
    if accepted {
        STATUS_VALIDATED@
    } else {
        STATUS_FAILED@
    }
}

/// What a check saw.
pub open spec fn validation_block(
    checked_at: Seq<char>,
    sample: JsonModel,
    dry_run: JsonModel,
    accepted: bool,
) -> JsonModel {
    JsonModel::object().put("checked_at"@, JsonModel::Text(checked_at)).put("sample"@, sample).put(
        "dry_run"@,
        dry_run,
    ).put("accepted"@, JsonModel::Bool(accepted))
}

/// Each member of a validation holds what it is named after.
pub proof fn law_a_validation_names_what_it_shows(
    checked_at: Seq<char>,
    sample: JsonModel,
    dry_run: JsonModel,
    accepted: bool,
)
    ensures
        ({
            let shown = validation_block(checked_at, sample, dry_run, accepted);
            &&& shown.get("checked_at"@) == Some(JsonModel::Text(checked_at))
            &&& shown.get("sample"@) == Some(sample)
            &&& shown.get("dry_run"@) == Some(dry_run)
            &&& shown.get("accepted"@) == Some(JsonModel::Bool(accepted))
        }),
{
    reveal_strlit("checked_at");
    reveal_strlit("sample");
    reveal_strlit("dry_run");
    reveal_strlit("accepted");
    let m0 = JsonModel::object();
    let v1 = JsonModel::Text(checked_at);
    lemma_put(m0, "checked_at"@, v1);
    let m1 = m0.put("checked_at"@, v1);
    let v2 = sample;
    lemma_put(m1, "sample"@, v2);
    let m2 = m1.put("sample"@, v2);
    let v3 = dry_run;
    lemma_put(m2, "dry_run"@, v3);
    let m3 = m2.put("dry_run"@, v3);
    let v4 = JsonModel::Bool(accepted);
    lemma_put(m3, "accepted"@, v4);
}

/// The record after a check.
pub open spec fn checked_record(
    data: JsonModel,
    accepted: bool,
    validation: JsonModel,
) -> JsonModel {
    data.put("status"@, JsonModel::Text(checked_status(accepted))).put("validation"@, validation)
}

/// What came of the fetch behind a check.
#[derive(Debug)]
pub enum Checked {
    FetchFailed(String),
    /// The page holds nothing to sample.
    NoSample(String),
    /// What was sampled, what the rules made of it, and whether they bound.
    Sampled { sample: Json, dry_run: Json, accepted: bool },
}

/// The answer to a check.
pub open spec fn check_answer(
    key: Seq<char>,
    accepted: bool,
    validation: JsonModel,
) -> JsonModel {
    JsonModel::object().put("key"@, JsonModel::Text(key)).put(
        "status"@,
        JsonModel::Text(checked_status(accepted)),
    ).put("validation"@, validation)
}

/// Each member of a check's answer holds what it is named after.
pub proof fn law_a_check_answer_names_what_it_shows(
    key: Seq<char>,
    accepted: bool,
    validation: JsonModel,
)
    ensures
        ({
            let shown = check_answer(key, accepted, validation);
            &&& shown.get("key"@) == Some(JsonModel::Text(key))
            &&& shown.get("status"@) == Some(JsonModel::Text(checked_status(accepted)))
            &&& shown.get("validation"@) == Some(validation)
        }),
{
    reveal_strlit("key");
    reveal_strlit("status");
    reveal_strlit("validation");
    let m0 = JsonModel::object();
    let v1 = JsonModel::Text(key);
    lemma_put(m0, "key"@, v1);
    let m1 = m0.put("key"@, v1);
    let v2 = JsonModel::Text(checked_status(accepted));
    lemma_put(m1, "status"@, v2);
    let m2 = m1.put("status"@, v2);
    let v3 = validation;
    lemma_put(m2, "validation"@, v3);
}

/// Records a check: the new record and the answer, or the refusal of one that could
/// not take place. A refused check leaves the record as it was.
pub fn record_validation(
    key: &str,
    data: &Json,
    rules: &Result<(), String>,
    checked: &Checked,
    checked_at: &str,
) -> (r: Result<(Json, Json), ApiError>)
    ensures
        match check_refusal(key@, data@, *rules) {
            Some(m) => r matches Err(e) && e@ == (400u16, m),
            None => match *checked {
                Checked::FetchFailed(why) => r matches Err(e) && e@ == (
                    400u16,
                    about(
                        key@,
                        "fetch of "@ + proposal_url(data@)->0 + " failed: "@ + why@,
                    ),
                ),
                Checked::NoSample(why) => r matches Err(e) && e@ == (400u16, about(key@, why@)),
                Checked::Sampled { sample, dry_run, accepted } => {
                    let validation = validation_block(checked_at@, sample@, dry_run@, accepted);
                    &&& r matches Ok(out)
                    &&& out.0@ == checked_record(data@, accepted, validation)
                    &&& out.1@ == check_answer(key@, accepted, validation)
                },
            },
        },
{
    let request = match validate_proposal(key, data, rules) {
        Ok(request) => request,
        Err(e) => return Err(e),
    };
    match checked {
        Checked::FetchFailed(why) => {
            let mut m = owned("fetch of ");
            m.append(request.url.as_str());
            m.append(" failed: ");
            m.append(why.as_str());
            Err(refuse(key, m.as_str()))
        },
        Checked::NoSample(why) => Err(refuse(key, why.as_str())),
        Checked::Sampled { sample, dry_run, accepted } => Ok(
            write_validation(key, data, checked_at, sample, dry_run, *accepted),
        ),
    }
}

fn write_validation(
    key: &str,
    data: &Json,
    checked_at: &str,
    sample: &Json,
    dry_run: &Json,
    accepted: bool,
) -> (r: (Json, Json))
    ensures
        ({
            let validation = validation_block(checked_at@, sample@, dry_run@, accepted);
            &&& r.0@ == checked_record(data@, accepted, validation)
            &&& r.1@ == check_answer(key@, accepted, validation)
        }),
{
    let status = if accepted {
        STATUS_VALIDATED
    } else {
        STATUS_FAILED
    };
    let mut validation = Json::object();
    validation.set("checked_at", Json::text(checked_at));
    validation.set("sample", sample.copy());
    validation.set("dry_run", dry_run.copy());
    validation.set("accepted", Json::Bool(accepted));
    let mut stored = data.copy();
    stored.set("status", Json::text(status));
    stored.set("validation", validation.copy());
    let mut answer = Json::object();
    answer.set("key", Json::text(key));
    answer.set("status", Json::text(status));
    answer.set("validation", validation);
    (stored, answer)
}

/// A check leaves the record of the compile as it was: it writes the status and
/// its own findings, and nothing else.
pub proof fn law_a_check_keeps_the_compile_record(
    data: JsonModel,
    accepted: bool,
    validation: JsonModel,
    field: Seq<char>,
)
    requires
        field != "status"@,
        field != "validation"@,
    ensures
        checked_record(data, accepted, validation).get(field) == data.get(field),
{
    if let JsonModel::Object(s) = data {
        let status = JsonModel::Text(checked_status(accepted));
        law_put_keeps_others(s, "status"@, status, field);
        law_put_keeps_others(
            put_entry(s, "status"@, status),
            "validation"@,
            validation,
            field,
        );
    }
}

/// The record and the answer of a dry run agree: both say `validated` where it was
/// accepted and `failed` where it was not, and both hold the validation.
pub proof fn law_record_and_answer_of_a_dry_run_agree(
    key: Seq<char>,
    data: JsonModel,
    accepted: bool,
    validation: JsonModel,
)
    requires
        data is Object,
    ensures
        ({
            let verdict = Some(
                JsonModel::Text(
                    if accepted {
                        "validated"@
                    } else {
                        "failed"@
                    },
                ),
            );
            &&& checked_record(data, accepted, validation).get("status"@) == verdict
            &&& checked_record(data, accepted, validation).get("validation"@) == Some(validation)
            &&& check_answer(key, accepted, validation).get("status"@) == verdict
            &&& check_answer(key, accepted, validation).get("validation"@) == Some(validation)
        }),
{
    reveal_strlit("status");
    reveal_strlit("validation");
    law_a_check_answer_names_what_it_shows(key, accepted, validation);
    let status = JsonModel::Text(checked_status(accepted));
    lemma_put(data, "status"@, status);
    lemma_put(data.put("status"@, status), "validation"@, validation);
}

/// Whether the compile accepted the draft; a record that does not say did not.
pub open spec fn compile_accepted(data: JsonModel) -> bool {
    data.get("accepted"@) matches Some(v) && v.as_bool() == Some(true)
}

/// Only a compile that says `true` was accepted.
pub proof fn law_only_a_true_compile_is_accepted(data: JsonModel)
    ensures
        compile_accepted(data) <==> data.get("accepted"@) == Some(JsonModel::Bool(true)),
{
}

/// What decides a promotion: the status, and whether the compile accepted.
pub fn promotion_facts(data: &Json) -> (r: (String, bool))
    ensures
        r.0@ == status_of(data@),
        r.1 == compile_accepted(data@),
{
    let accepted = match data.get("accepted") {
        Some(v) => match v.as_bool() {
            Some(b) => b,
            None => false,
        },
        None => false,
    };
    (proposal_status(data), accepted)
}

/// Why a promotion was refused.
pub open spec fn promote_message(key: Seq<char>, status: Seq<char>, accepted: bool) -> Seq<char> {
    "proposal '"@ + key + "' cannot be promoted: status='"@ + status
        + "', compile-time accepted="@ + if accepted {
        "true"@
    } else {
        "false"@
    } + ". Validate it (POST /provisioner/proposals/"@ + key
        + "/validate) until it passes, or re-propose with a revised prompt."@
}

/// The refusal of a promotion names the proposal, its status and what its compile
/// said.
pub proof fn law_a_refused_promotion_says_why(key: Seq<char>, status: Seq<char>, accepted: bool)
    ensures
        begins(
            promote_message(key, status, accepted),
            "proposal '"@ + key + "' cannot be promoted: status='"@ + status
                + "', compile-time accepted="@ + if accepted {
                "true"@
            } else {
                "false"@
            },
        ),
{
    let head = "proposal '"@ + key + "' cannot be promoted: status='"@ + status
        + "', compile-time accepted="@ + if accepted {
        "true"@
    } else {
        "false"@
    };
    assert(promote_message(key, status, accepted).take(head.len() as int) =~= head);
}

/// Promotes a proposal, given whether its evidence allows it and the fragment its
/// stored row renders to. The new record, and the answer.
pub fn promote_proposal(
    key: &str,
    data: &Json,
    may_promote: bool,
    fragment: Result<String, String>,
    promoted_at: &str,
) -> (r: Result<(Json, Json), ApiError>)
    ensures
        if !may_promote {
            r matches Err(e) && e@ == (
                409u16,
                promote_message(key@, status_of(data@), compile_accepted(data@)),
            )
        } else {
            match fragment {
                Err(why) => r matches Err(e) && e@ == (
                    400u16,
                    about(key@, "stored catalog_row no longer parses: "@ + why@),
                ),
                Ok(toml) => {
                    &&& r matches Ok(out)
                    &&& out.0@ == data@.put("status"@, JsonModel::Text(STATUS_PROMOTED@)).put(
                        "promoted_at"@,
                        JsonModel::Text(promoted_at@),
                    ).put("catalog_toml"@, JsonModel::Text(toml@))
                    &&& out.1@ == JsonModel::object().put("key"@, JsonModel::Text(key@)).put(
                        "status"@,
                        JsonModel::Text(STATUS_PROMOTED@),
                    ).put("catalog_toml"@, JsonModel::Text(toml@))
                },
            }
        },
{
    if !may_promote {
        let facts = promotion_facts(data);
        let mut m = owned("proposal '");
        m.append(key);
        m.append("' cannot be promoted: status='");
        m.append(facts.0.as_str());
        m.append("', compile-time accepted=");
        m.append(
            if facts.1 {
                "true"
            } else {
                "false"
            },
        );
        m.append(". Validate it (POST /provisioner/proposals/");
        m.append(key);
        m.append("/validate) until it passes, or re-propose with a revised prompt.");
        return Err(ApiError::new(CONFLICT, m));
    }
    match fragment {
        Err(why) => {
            let mut m = owned("stored catalog_row no longer parses: ");
            m.append(why.as_str());
            Err(refuse(key, m.as_str()))
        },
        Ok(toml) => {
            let mut stored = data.copy();
            stored.set("status", Json::text(STATUS_PROMOTED));
            stored.set("promoted_at", Json::text(promoted_at));
            stored.set("catalog_toml", Json::text(toml.as_str()));
            let mut answer = Json::object();
            answer.set("key", Json::text(key));
            answer.set("status", Json::text(STATUS_PROMOTED));
            answer.set("catalog_toml", Json::text(toml.as_str()));
            Ok((stored, answer))
        },
    }
}

} // verus!
