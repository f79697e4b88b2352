//! The executor plane: who may act on it, which writes are refused, and when a
//! long poll for work is answered.

use vstd::prelude::*;

use crate::error::{code_of, ApiError, BAD_REQUEST, CONFLICT, NOT_FOUND, UNAUTHORIZED};
use crate::ident::{show_uuid, uuid_text};
use crate::json::{lemma_put, models, text_list, Json, JsonModel};
use crate::number::{decimal, push_i64};
use crate::text::{begins, chars, owned, trim_chars, trimmed};

verus! {

/// The header that carries the plane's shared secret.
pub const EXECUTOR_SECRET_HEADER: &'static str = "x-pumper-executor-secret";

/// The refusal of a plane that is switched off.
pub const PLANE_DISABLED: &'static str =
    "the executor plane is disabled on this node ([executors] enabled)";

/// The refusal of an anonymous executor.
pub const EXECUTOR_ID_REQUIRED: &'static str =
    "executor_id is required — an anonymous executor cannot be fenced, reaped or reported on";

/// The refusal of a report that names no outcome, or two.
pub const ONE_OUTCOME: &'static str =
    "exactly one of `result` or `error` must be present — a finish that says neither (or both) has not reported an outcome";

/// Whether a request may act: the plane must be served, and the presented secret
/// must be the configured one. A plane that is not served does not exist.
pub fn authorize(servable: bool, secret_matches: bool) -> (r: Result<(), ApiError>)
    ensures
        r is Ok <==> servable && secret_matches,
        r matches Err(e) ==> e@ == if !servable {
            (404u16, PLANE_DISABLED@)
        } else {
            (401u16, "missing or invalid "@ + EXECUTOR_SECRET_HEADER@ + " header"@)
        },
{
    if !servable {
        return Err(ApiError::fixed(NOT_FOUND, PLANE_DISABLED));
    }
    if !secret_matches {
        let mut m = owned("missing or invalid ");
        m.append(EXECUTOR_SECRET_HEADER);
        m.append(" header");
        return Err(ApiError::new(UNAUTHORIZED, m));
    }
    Ok(())
}

/// What every write of an executor names: the job, the attempt it was handed,
/// and the executor itself.
#[derive(Debug, PartialEq)]
pub struct Fence {
    pub job_id: [u8; 16],
    pub attempt: i64,
    pub executor_id: String,
}

/// Why a write was refused.
pub open spec fn not_owned_message(fence: Fence) -> Seq<char> {
    "job "@ + uuid_text(fence.job_id@) + " is not running as attempt "@ + decimal(
        fence.attempt as int,
    ) + " on executor '"@ + fence.executor_id@
        + "' — it was reset, reaped, cancelled or already finished, and another attempt now owns the outcome"@
}

/// The refusal of a write names the job, the attempt and the executor it was made as.
pub proof fn law_a_lost_job_is_named_with_its_attempt(fence: Fence)
    ensures
        begins(
            not_owned_message(fence),
            "job "@ + uuid_text(fence.job_id@) + " is not running as attempt "@ + decimal(
                fence.attempt as int,
            ) + " on executor '"@ + fence.executor_id@,
        ),
{
    let head = "job "@ + uuid_text(fence.job_id@) + " is not running as attempt "@ + decimal(
        fence.attempt as int,
    ) + " on executor '"@ + fence.executor_id@;
    assert(not_owned_message(fence).take(head.len() as int) =~= head);
}

/// The one refusal of a write by an executor that no longer holds the job.
pub fn not_owned(fence: &Fence) -> (r: ApiError)
    ensures
        r@ == (409u16, not_owned_message(*fence)),
{
    let mut m = owned("job ");
    m.append(show_uuid(&fence.job_id).as_str());
    m.append(" is not running as attempt ");
    push_i64(&mut m, fence.attempt);
    m.append(" on executor '");
    m.append(fence.executor_id.as_str());
    m.append(
        "' — it was reset, reaped, cancelled or already finished, and another attempt now owns the outcome",
    );
    ApiError::new(CONFLICT, m)
}

/// The fence at the door: the store's answer, or the refusal.
pub fn owned_by(held: bool, fence: &Fence) -> (r: Result<(), ApiError>)
    ensures
        r is Ok <==> held,
        r matches Err(e) ==> e@ == (409u16, not_owned_message(*fence)),
{
    if held {
        Ok(())
    } else {
        Err(not_owned(fence))
    }
}

/// What a heartbeat is answered: `owned` is the executor's stop signal. The refusal
/// is the one every other write gets, with the signal beside its prose.
pub open spec fn heartbeat_answer(held: bool, fence: Fence) -> (u16, JsonModel) {
    if held {
        (200u16, JsonModel::object().put("owned"@, JsonModel::Bool(true)))
    } else {
        (
            409u16,
            JsonModel::object().put("error"@, JsonModel::Text(not_owned_message(fence))).put(
                "code"@,
                JsonModel::Text(code_of(409)),
            ).put("owned"@, JsonModel::Bool(false)),
        )
    }
}

/// Answers a heartbeat, with its status and its body.
pub fn executor_heartbeat(held: bool, fence: &Fence) -> (r: (u16, Json))
    ensures
        (r.0, r.1@) == heartbeat_answer(held, *fence),
{
    let mut body = Json::object();
    match owned_by(held, fence) {
        Ok(_) => {
            body.set("owned", Json::Bool(true));
            (200, body)
        },
        Err(e) => {
            body.set("error", Json::text(e.message.as_str()));
            body.set("code", Json::text(e.code()));
            body.set("owned", Json::Bool(false));
            (e.status, body)
        },
    }
}

/// A heartbeat says whether its executor still owns the job, and a 409 is how it says
/// that it does not.
pub proof fn law_a_heartbeat_tells_who_owns_the_job(held: bool, fence: Fence)
    ensures
        heartbeat_answer(held, fence).1.get("owned"@) == Some(JsonModel::Bool(held)),
        heartbeat_answer(held, fence).0 == 409 <==> !held,
        heartbeat_answer(held, fence).0 == 200 <==> held,
        !held ==> heartbeat_answer(held, fence).1.get("error"@) == Some(
            JsonModel::Text(not_owned_message(fence)),
        ) && heartbeat_answer(held, fence).1.get("code"@) == Some(JsonModel::Text("conflict"@)),
{
    reveal_strlit("owned");
    reveal_strlit("error");
    reveal_strlit("code");
    assert("owned"@[0] != "error"@[0]);
    let m0 = JsonModel::object();
    lemma_put(m0, "owned"@, JsonModel::Bool(true));
    let error = JsonModel::Text(not_owned_message(fence));
    let code = JsonModel::Text(code_of(409));
    let m1 = m0.put("error"@, error);
    lemma_put(m0, "error"@, error);
    lemma_put(m1, "code"@, code);
    lemma_put(m1.put("code"@, code), "owned"@, JsonModel::Bool(false));
}

/// One claimed job, as an executor needs it and with nothing the coordinator keeps to
/// itself.
#[derive(Debug)]
pub struct ClaimedJob {
    pub job_id: [u8; 16],
    pub app: String,
    pub params: Json,
    /// The attempt this claim advanced to, which every write about the job must name.
    pub attempt: i64,
    /// The budget that was resolved for this attempt, as a decimal number of dollars.
    pub budget_usd: Option<String>,
    /// The checkpoint the attempt starts from.
    pub restored: Option<Json>,
    /// The answer to what a parked job had asked.
    pub resumed_input: Option<Json>,
}

/// An optional value, or null.
pub open spec fn maybe_json(v: Option<Json>) -> JsonModel {
    match v {
        Some(j) => j@,
        None => JsonModel::Null,
    }
}

/// A claimed job as it is handed out.
pub open spec fn claimed_body(job: ClaimedJob) -> JsonModel {
    JsonModel::object().put("job_id"@, JsonModel::Text(uuid_text(job.job_id@))).put(
        "app"@,
        JsonModel::Text(job.app@),
    ).put("params"@, job.params@).put("attempt"@, JsonModel::integer(job.attempt as int)).put(
        "budget_usd"@,
        match job.budget_usd {
            Some(dollars) => JsonModel::Number(dollars@),
            None => JsonModel::Null,
        },
    ).put("restored"@, maybe_json(job.restored)).put(
        "resumed_input"@,
        maybe_json(job.resumed_input),
    )
}

/// Each member of a claim's answer holds the part of the job it is named after.
pub proof fn law_a_claim_hands_out_the_job(job: ClaimedJob)
    ensures
        ({
            let shown = claimed_body(job);
            &&& shown.get("job_id"@) == Some(JsonModel::Text(uuid_text(job.job_id@)))
            &&& shown.get("app"@) == Some(JsonModel::Text(job.app@))
            &&& shown.get("params"@) == Some(job.params@)
            &&& shown.get("attempt"@) == Some(JsonModel::integer(job.attempt as int))
            &&& shown.get("budget_usd"@) == Some(
                match job.budget_usd {
                    Some(dollars) => JsonModel::Number(dollars@),
                    None => JsonModel::Null,
                },
            )
            &&& shown.get("restored"@) == Some(maybe_json(job.restored))
            &&& shown.get("resumed_input"@) == Some(maybe_json(job.resumed_input))
        }),
{
    reveal_strlit("job_id");
    reveal_strlit("app");
    reveal_strlit("params");
    reveal_strlit("attempt");
    reveal_strlit("budget_usd");
    reveal_strlit("restored");
    reveal_strlit("resumed_input");
    assert("job_id"@[0] != "params"@[0]);
    let m0 = JsonModel::object();
    let v1 = JsonModel::Text(uuid_text(job.job_id@));
    lemma_put(m0, "job_id"@, v1);
    let m1 = m0.put("job_id"@, v1);
    let v2 = JsonModel::Text(job.app@);
    lemma_put(m1, "app"@, v2);
    let m2 = m1.put("app"@, v2);
    let v3 = job.params@;
    lemma_put(m2, "params"@, v3);
    let m3 = m2.put("params"@, v3);
    let v4 = JsonModel::integer(job.attempt as int);
    lemma_put(m3, "attempt"@, v4);
    let m4 = m3.put("attempt"@, v4);
    let v5 = match job.budget_usd {
        Some(dollars) => JsonModel::Number(dollars@),
        None => JsonModel::Null,
    };
    lemma_put(m4, "budget_usd"@, v5);
    let m5 = m4.put("budget_usd"@, v5);
    let v6 = maybe_json(job.restored);
    lemma_put(m5, "restored"@, v6);
    let m6 = m5.put("restored"@, v6);
    let v7 = maybe_json(job.resumed_input);
    lemma_put(m6, "resumed_input"@, v7);
}

fn copy_or_null(v: &Option<Json>) -> (r: Json)
    ensures
        r@ == maybe_json(*v),
{
    match v {
        Some(j) => j.copy(),
        None => Json::Null,
    }
}

/// Answers a claim, with its status: the job that was claimed, or no content when the
/// poll ended without one.
pub fn claim_answer(claimed: &Option<ClaimedJob>) -> (r: (u16, Option<Json>))
    ensures
        match *claimed {
            Some(job) => {
                &&& r.0 == 200
                &&& r.1 matches Some(body)
                &&& body@ == claimed_body(job)
            },
            None => r.0 == 204 && r.1 is None,
        },
{
    match claimed {
        None => (204, None),
        Some(job) => {
            let mut out = Json::object();
            out.set("job_id", Json::text(show_uuid(&job.job_id).as_str()));
            out.set("app", Json::text(job.app.as_str()));
            out.set("params", job.params.copy());
            out.set("attempt", Json::integer(job.attempt));
            out.set(
                "budget_usd",
                match &job.budget_usd {
                    Some(dollars) => Json::number(dollars.as_str()),
                    None => Json::Null,
                },
            );
            out.set("restored", copy_or_null(&job.restored));
            out.set("resumed_input", copy_or_null(&job.resumed_input));
            (200, Some(out))
        },
    }
}

/// Whether a claim is well formed: the executor must name itself.
pub fn claim_job(executor_id: &str) -> (r: Result<(), ApiError>)
    ensures
        r is Ok <==> trimmed(executor_id@).len() > 0,
        r matches Err(e) ==> e@ == (400u16, EXECUTOR_ID_REQUIRED@),
{
    let cs = chars(executor_id);
    if trim_chars(&cs).len() == 0 {
        return Err(ApiError::fixed(BAD_REQUEST, EXECUTOR_ID_REQUIRED));
    }
    Ok(())
}

/// How long an empty queue is held open: at least a second.
pub fn claim_wait(configured: u64) -> (r: u64)
    ensures
        r == if configured < 1 {
            1
        } else {
            configured
        },
{
    if configured < 1 {
        1
    } else {
        configured
    }
}

/// What a long poll has just seen.
#[derive(Debug, Clone, Copy, PartialEq, Eq, Structural)]
pub enum ClaimSeen {
    /// The store handed out a job.
    Job,
    /// There was nothing, and whether the deadline has passed.
    Nothing { expired: bool },
    /// An enqueue woke the poll, or the deadline came up while it waited.
    Woken,
    /// The node is shutting down.
    Shutdown,
}

/// What a long poll does next.
#[derive(Debug, Clone, Copy, PartialEq, Eq, Structural)]
pub enum ClaimNext {
    /// Hand the job to the executor.
    Answer,
    /// Answer that there is nothing to run.
    NoContent,
    /// Ask the store again.
    Ask,
    /// Wait for an enqueue, the deadline or the end of the process.
    Wait,
}

/// One step of a long poll: a job is handed out even when the deadline has
/// passed, and the store is always asked once more before the poll gives up.
pub fn claim_step(seen: ClaimSeen) -> (r: ClaimNext)
    ensures
        r == match seen {
            ClaimSeen::Job => ClaimNext::Answer,
            ClaimSeen::Nothing { expired: true } => ClaimNext::NoContent,
            ClaimSeen::Nothing { expired: false } => ClaimNext::Wait,
            ClaimSeen::Woken => ClaimNext::Ask,
            ClaimSeen::Shutdown => ClaimNext::NoContent,
        },
{
    match seen {
        ClaimSeen::Job => ClaimNext::Answer,
        ClaimSeen::Nothing { expired } => {
            if expired {
                ClaimNext::NoContent
            } else {
                ClaimNext::Wait
            }
        },
        ClaimSeen::Woken => ClaimNext::Ask,
        ClaimSeen::Shutdown => ClaimNext::NoContent,
    }
}

/// Why a report is refused: it names no outcome or two, the executor no longer holds
/// the job, or there is no such job. Looked for in that order.
pub open spec fn finish_refusal(
    one_outcome: bool,
    held: bool,
    found: bool,
    fence: Fence,
) -> Option<(u16, Seq<char>)> {
    if !one_outcome {
        Some((400u16, ONE_OUTCOME@))
    } else if !held {
        Some((409u16, not_owned_message(fence)))
    } else if !found {
        Some((404u16, "job "@ + uuid_text(fence.job_id@) + " not found"@))
    } else {
        None
    }
}

/// A finish is judged by its outcome first, then by who holds the job, and only then
/// by whether the job is there.
pub proof fn law_a_finish_is_judged_in_order(
    one_outcome: bool,
    held: bool,
    found: bool,
    fence: Fence,
)
    ensures
        finish_refusal(one_outcome, held, found, fence) is None <==> one_outcome && held && found,
        finish_refusal(one_outcome, held, found, fence) matches Some((status, _)) ==> status
            == if !one_outcome {
            400u16
        } else if !held {
            409u16
        } else {
            404u16
        },
{
}

/// Whether a report names one outcome: the first thing that is asked of it.
pub fn one_outcome(has_result: bool, has_error: bool) -> (r: Result<(), ApiError>)
    ensures
        r is Ok <==> has_result != has_error,
        r matches Err(e) ==> e@ == (400u16, ONE_OUTCOME@),
{
    if has_result == has_error {
        return Err(ApiError::fixed(BAD_REQUEST, ONE_OUTCOME));
    }
    Ok(())
}

/// Reads a report: a result or an error, and exactly one of them, from the executor
/// that holds the job. A report by any other is refused rather than overwriting the
/// attempt that does.
pub fn executor_finish(
    result: Option<Json>,
    error: Option<String>,
    held: bool,
    found: bool,
    fence: &Fence,
) -> (r: Result<Result<Json, String>, ApiError>)
    ensures
        match finish_refusal((result is Some) != (error is Some), held, found, *fence) {
            Some(refusal) => r matches Err(e) && e@ == refusal,
            None => r == Ok::<Result<Json, String>, ApiError>(
                if result is Some {
                    Ok(result->0)
                } else {
                    Err(error->0)
                },
            ),
        },
{
    let outcome: Result<Json, String> = match (result, error) {
        (Some(value), None) => Ok(value),
        (None, Some(failure)) => Err(failure),
        _ => {
            return Err(ApiError::fixed(BAD_REQUEST, ONE_OUTCOME));
        },
    };
    match owned_by(held, fence) {
        Ok(_) => {},
        Err(e) => {
            return Err(e);
        },
    }
    if !found {
        return Err(job_not_found(&fence.job_id));
    }
    Ok(outcome)
}

/// The refusal of a finish for a job that is gone.
pub fn job_not_found(job_id: &[u8; 16]) -> (r: ApiError)
    ensures
        r@ == (404u16, "job "@ + uuid_text(job_id@) + " not found"@),
{
    let mut m = owned("job ");
    m.append(show_uuid(job_id).as_str());
    m.append(" not found");
    ApiError::new(NOT_FOUND, m)
}

/// One executor the coordinator has seen.
#[derive(Debug, PartialEq)]
pub struct ExecutorRow {
    pub id: String,
    pub state: String,
    pub capabilities: Vec<String>,
    pub running: i64,
    pub claimed_total: i64,
    pub last_poll_at: String,
    pub last_poll_age_secs: Option<i64>,
    pub first_seen_at: String,
}

/// One row of the executor list.
pub open spec fn executor_row(e: ExecutorRow) -> JsonModel {
    JsonModel::object().put("id"@, JsonModel::Text(e.id@)).put(
        "state"@,
        JsonModel::Text(e.state@),
    ).put("capabilities"@, text_list(e.capabilities@)).put(
        "running"@,
        JsonModel::integer(e.running as int),
    ).put("claimed_total"@, JsonModel::integer(e.claimed_total as int)).put(
        "last_poll_at"@,
        JsonModel::Text(e.last_poll_at@),
    ).put(
        "last_poll_age_secs"@,
        JsonModel::int_or_null(
            match e.last_poll_age_secs {
                Some(n) => Some(n as int),
                None => None,
            },
        ),
    ).put("first_seen_at"@, JsonModel::Text(e.first_seen_at@))
}

/// Each member of an executor row holds what it is named after.
pub proof fn law_an_executor_row_names_what_it_shows(e: ExecutorRow)
    ensures
        ({
            let shown = executor_row(e);
            &&& shown.get("id"@) == Some(JsonModel::Text(e.id@))
            &&& shown.get("state"@) == Some(JsonModel::Text(e.state@))
            &&& shown.get("capabilities"@) == Some(text_list(e.capabilities@))
            &&& shown.get("running"@) == Some(JsonModel::integer(e.running as int))
            &&& shown.get("claimed_total"@) == Some(JsonModel::integer(e.claimed_total as int))
            &&& shown.get("last_poll_at"@) == Some(JsonModel::Text(e.last_poll_at@))
            &&& shown.get("last_poll_age_secs"@) == Some(
                JsonModel::int_or_null(
                    match e.last_poll_age_secs { Some(n) => Some(n as int), None => None, },
                ),
            )
            &&& shown.get("first_seen_at"@) == Some(JsonModel::Text(e.first_seen_at@))
        }),
{
    reveal_strlit("id");
    reveal_strlit("state");
    reveal_strlit("capabilities");
    reveal_strlit("running");
    reveal_strlit("claimed_total");
    reveal_strlit("last_poll_at");
    reveal_strlit("last_poll_age_secs");
    reveal_strlit("first_seen_at");
    assert("capabilities"@[0] != "last_poll_at"@[0]);
    assert("claimed_total"@[0] != "first_seen_at"@[0]);
    let m0 = JsonModel::object();
    let v1 = JsonModel::Text(e.id@);
    lemma_put(m0, "id"@, v1);
    let m1 = m0.put("id"@, v1);
    let v2 = JsonModel::Text(e.state@);
    lemma_put(m1, "state"@, v2);
    let m2 = m1.put("state"@, v2);
    let v3 = text_list(e.capabilities@);
    lemma_put(m2, "capabilities"@, v3);
    let m3 = m2.put("capabilities"@, v3);
    let v4 = JsonModel::integer(e.running as int);
    lemma_put(m3, "running"@, v4);
    let m4 = m3.put("running"@, v4);
    let v5 = JsonModel::integer(e.claimed_total as int);
    lemma_put(m4, "claimed_total"@, v5);
    let m5 = m4.put("claimed_total"@, v5);
    let v6 = JsonModel::Text(e.last_poll_at@);
    lemma_put(m5, "last_poll_at"@, v6);
    let m6 = m5.put("last_poll_at"@, v6);
    let v7 = JsonModel::int_or_null(
        match e.last_poll_age_secs { Some(n) => Some(n as int), None => None, },
    );
    lemma_put(m6, "last_poll_age_secs"@, v7);
    let m7 = m6.put("last_poll_age_secs"@, v7);
    let v8 = JsonModel::Text(e.first_seen_at@);
    lemma_put(m7, "first_seen_at"@, v8);
}

fn row_json(e: &ExecutorRow) -> (r: Json)
    ensures
        r@ == executor_row(*e),
{
    let mut out = Json::object();
    out.set("id", Json::text(e.id.as_str()));
    out.set("state", Json::text(e.state.as_str()));
    out.set("capabilities", Json::texts(e.capabilities.as_slice()));
    out.set("running", Json::integer(e.running));
    out.set("claimed_total", Json::integer(e.claimed_total));
    out.set("last_poll_at", Json::text(e.last_poll_at.as_str()));
    out.set("last_poll_age_secs", Json::optional_int(e.last_poll_age_secs));
    out.set("first_seen_at", Json::text(e.first_seen_at.as_str()));
    out
}

/// Who is out there, and what this node would hand out at all.
pub fn list_executors(rows: &[ExecutorRow], eligible_apps: &[String]) -> (r: Json)
    ensures
        r@ == JsonModel::object().put(
            "executors"@,
            JsonModel::Array(Seq::new(rows@.len(), |i: int| executor_row(rows@[i]))),
        ).put("eligible_apps"@, text_list(eligible_apps@)),
{
    let mut list: Vec<Json> = Vec::new();
    let mut i: usize = 0;
    while i < rows.len()
        invariant
            i <= rows@.len(),
            list@.len() == i,
            forall|k: int| 0 <= k < i ==> (#[trigger] list@[k])@ == executor_row(rows@[k]),
        decreases rows@.len() - i,
    {
        list.push(row_json(&rows[i]));
        i += 1;
    }
    assert(models(list@) =~= Seq::new(rows@.len(), |k: int| executor_row(rows@[k])));
    let mut out = Json::object();
    out.set("executors", Json::array(list));
    out.set("eligible_apps", Json::texts(eligible_apps));
    out
}

} // verus!
