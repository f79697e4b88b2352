//! The job queue's doors: what may be enqueued and with which options, how a
//! listing is narrowed, and what a state change that did not happen is answered.

use vstd::prelude::*;

use crate::cursor::{cursor_pair, pair_view, parse_cursor};
use crate::datasets::{clamp, clamped};
use crate::error::{
    client_facing, disclosed, ApiError, Error, BAD_REQUEST, CONFLICT, NOT_FOUND,
    UNPROCESSABLE_ENTITY,
};
use crate::ident::{show_uuid, uuid_text};
use crate::json::{
    entry_models, law_get_after_put, law_put_keeps_others, lemma_object_model, lemma_put, lookup,
    models, put_entry, sorted, Json, JsonModel,
};
use crate::text::{owned, same, trim, trimmed};

verus! {

/// The entries of `base` with those of `top` set over them, in order.
pub open spec fn overlaid(
    base: Seq<(Seq<char>, JsonModel)>,
    top: Seq<(Seq<char>, JsonModel)>,
) -> Seq<(Seq<char>, JsonModel)>
    decreases top.len(),
{
    if top.len() == 0 {
        base
    } else {
        put_entry(overlaid(base, top.drop_last()), top.last().0, top.last().1)
    }
}

/// What a request's params come to over an app's defaults.
pub open spec fn merged(defaults: JsonModel, over: Option<JsonModel>) -> JsonModel {
    match over {
        None => defaults,
        Some(o) => match (defaults, o) {
            (JsonModel::Object(base), JsonModel::Object(top)) => JsonModel::Object(
                overlaid(base, top),
            ),
            _ => o,
        },
    }
}

/// Merges a request's `params` over the app's defaults. Setting one key keeps the
/// other defaults, which is what the scheduler runs with; what cannot be merged
/// key by key replaces the defaults.
pub fn merge_params(defaults: Json, over: Option<Json>) -> (r: Json)
    ensures
        r@ == merged(
            defaults@,
            match over {
                Some(o) => Some(o@),
                None => None,
            },
        ),
{
    let top = match over {
        None => {
            return defaults;
        },
        Some(o) => o,
    };
    let mergeable = match (&defaults, &top) {
        (Json::Object(_), Json::Object(_)) => true,
        _ => false,
    };
    if !mergeable {
        return top;
    }
    let mut out = defaults;
    if let Json::Object(entries) = &top {
        let ghost base = out@->Object_0;
        let ghost all = entry_models(entries@);
        proof {
            lemma_object_model(*entries);
        }
        let mut i: usize = 0;
        assert(all.take(0) =~= Seq::empty());
        while i < entries.len()
            invariant
                i <= entries@.len(),
                all == entry_models(entries@),
                out@ == JsonModel::Object(overlaid(base, all.take(i as int))),
            decreases entries@.len() - i,
        {
            assert(all.take(i + 1).drop_last() =~= all.take(i as int));
            assert(all.take(i + 1).last() == all[i as int]);
            out.set(entries[i].0.as_str(), entries[i].1.copy());
            i += 1;
        }
        assert(all.take(entries@.len() as int) =~= all);
    }
    out
}

/// A merge keeps every default that the request does not mention, and the request
/// wins wherever it speaks.
pub proof fn law_merge_keeps_unmentioned_defaults(
    base: Seq<(Seq<char>, JsonModel)>,
    top: Seq<(Seq<char>, JsonModel)>,
    key: Seq<char>,
)
    requires
        sorted(top),
    ensures
        lookup(overlaid(base, top), key) == match lookup(top, key) {
            Some(v) => Some(v),
            None => lookup(base, key),
        },
    decreases top.len(),
{
    if top.len() > 0 {
        let rest = top.drop_last();
        assert(sorted(rest)) by {
            assert forall|i: int, j: int| 0 <= i < j < rest.len() implies crate::order::before(
                (#[trigger] rest[i]).0,
                (#[trigger] rest[j]).0,
            ) by {
                assert(crate::order::before(top[i].0, top[j].0));
            }
        }
        law_merge_keeps_unmentioned_defaults(base, rest, key);
        crate::provenance::lemma_lookup_push(rest, top.last(), key);
        assert(rest.push(top.last()) =~= top);
        let so_far = overlaid(base, rest);
        if key == top.last().0 {
            law_get_after_put(so_far, key, top.last().1);
            crate::json::lemma_last_is_new(top);
        } else {
            law_put_keeps_others(so_far, top.last().0, top.last().1, key);
        }
    }
}

/// Overrides that are no object, or that meet defaults which are none, take their
/// place whole; without overrides the defaults stand.
pub proof fn law_overrides_that_cannot_merge_replace(defaults: JsonModel, over: Option<JsonModel>)
    ensures
        over is None ==> merged(defaults, over) == defaults,
        over matches Some(o) ==> !(o is Object && defaults is Object) ==> merged(defaults, over)
            == o,
{
}

/// An amount of dollars: the bits of its IEEE 754 double, and the text it is
/// shown with.
#[derive(Debug, PartialEq)]
pub struct Usd {
    pub bits: u64,
    pub shown: String,
}

/// Whether the double with these bits is positive and finite: its sign bit is
/// clear, it is not zero, and its exponent is not the one of infinities and NaNs.
pub open spec fn is_positive_finite(bits: u64) -> bool {
    0 < bits < 0x7FF0_0000_0000_0000
}

/// The refusal of a budget that is no budget.
pub open spec fn budget_message(shown: Seq<char>) -> Seq<char> {
    BUDGET_HEAD@ + shown + BUDGET_MIDDLE@ + shown + BUDGET_TAIL@
}

pub const BUDGET_HEAD: &'static str = "budget_usd must be a positive number of dollars (got ";

pub const BUDGET_MIDDLE: &'static str =
    "). It is not a way to say 'spend nothing': an omitted budget_usd means this job runs with NO spend ceiling, so honouring ";

pub const BUDGET_TAIL: &'static str =
    " here would have turned the most cautious request into the least limited job. Pass a real ceiling (e.g. 0.25) to cap the job, or — to run a paid app on free tiers only — pass that app's own zero budget param (the research app takes \"max_budget_usd\": 0), or enqueue over MCP, where the [mcp] max_job_budget_usd rail treats 0 as a real $0 ceiling.";

/// The spend ceiling a job may carry. A non-positive or non-finite one is refused
/// at the door: dropping it would turn the most cautious request into a job
/// without any ceiling. Omitting it is the documented way to ask for none.
pub fn validate_budget_usd(requested: Option<Usd>) -> (r: Result<Option<Usd>, String>)
    ensures
        match requested {
            None => r == Ok::<Option<Usd>, String>(None),
            Some(b) => if is_positive_finite(b.bits) {
                r == Ok::<Option<Usd>, String>(Some(b))
            } else {
                r matches Err(m) && m@ == budget_message(b.shown@)
            },
        },
{
    match requested {
        None => Ok(None),
        Some(b) => if 0 < b.bits && b.bits < 0x7FF0_0000_0000_0000 {
            Ok(Some(b))
        } else {
            let mut m = owned(BUDGET_HEAD);
            m.append(b.shown.as_str());
            m.append(BUDGET_MIDDLE);
            m.append(b.shown.as_str());
            m.append(BUDGET_TAIL);
            Err(m)
        },
    }
}

/// The name of a listed entry.
pub open spec fn entry_name(e: Json) -> Option<Seq<char>> {
    e@.text_at("name"@)
}

/// The first listed entry with that name.
pub open spec fn entry_at(entries: Seq<Json>, name: Seq<char>) -> Option<JsonModel>
    decreases entries.len(),
{
    if entries.len() == 0 {
        None
    } else if entry_name(entries[0]) == Some(name) {
        Some(entries[0]@)
    } else {
        entry_at(entries.drop_first(), name)
    }
}

proof fn lemma_entry_at(entries: Seq<Json>, name: Seq<char>, i: int)
    requires
        0 <= i <= entries.len(),
        forall|k: int| 0 <= k < i ==> entry_name(#[trigger] entries[k]) != Some(name),
        i < entries.len() ==> entry_name(entries[i]) == Some(name),
    ensures
        entry_at(entries, name) == if i < entries.len() {
            Some(entries[i]@)
        } else {
            None
        },
    decreases i,
{
    if i > 0 {
        assert(entry_name(entries[0]) != Some(name));
        assert forall|k: int| 0 <= k < i - 1 implies entry_name(
            #[trigger] entries.drop_first()[k],
        ) != Some(name) by {
            assert(entry_name(entries[k + 1]) != Some(name));
        }
        lemma_entry_at(entries.drop_first(), name, i - 1);
    }
}

/// What an enqueue for an app that is not compiled in is answered: an app that
/// discovery lists but this build cannot run says so with the listing's own
/// reason; any other name is unknown.
pub open spec fn unknown_app_answer(
    name: Seq<char>,
    dynamic: Seq<Json>,
    default_reason: Seq<char>,
) -> (u16, Seq<char>) {
    match entry_at(dynamic, name) {
        Some(e) => (
            409u16,
            "dynamic app '"@ + name + "' is not runnable: "@ + match e.text_at("reason"@) {
                Some(reason) => reason,
                None => default_reason,
            },
        ),
        None => (404u16, "unknown app '"@ + name + "'"@),
    }
}

/// An app that is not there is answered by the first dynamic entry of its name,
/// with that entry's reason or the general one; without such an entry it is
/// unknown.
pub proof fn law_an_absent_app_is_answered_by_its_first_entry(
    name: Seq<char>,
    dynamic: Seq<Json>,
    default_reason: Seq<char>,
    i: int,
)
    requires
        0 <= i <= dynamic.len(),
        forall|k: int| 0 <= k < i ==> (#[trigger] dynamic[k])@.text_at("name"@) != Some(name),
        i < dynamic.len() ==> dynamic[i]@.text_at("name"@) == Some(name),
    ensures
        i == dynamic.len() ==> unknown_app_answer(name, dynamic, default_reason) == (
            404u16,
            "unknown app '"@ + name + "'"@,
        ),
        i < dynamic.len() ==> unknown_app_answer(name, dynamic, default_reason) == (
            409u16,
            "dynamic app '"@ + name + "' is not runnable: "@ + match dynamic[i]@.text_at(
                "reason"@,
            ) {
                Some(reason) => reason,
                None => default_reason,
            },
        ),
{
    lemma_entry_at(dynamic, name, i);
}

/// The refusal of an enqueue for an app that is not compiled in.
pub fn unknown_app(name: &str, dynamic: &[Json], default_reason: &str) -> (r: ApiError)
    ensures
        r@ == unknown_app_answer(name@, dynamic@, default_reason@),
{
    let mut i: usize = 0;
    while i < dynamic.len()
        invariant
            i <= dynamic@.len(),
            forall|k: int| 0 <= k < i ==> entry_name(#[trigger] dynamic@[k]) != Some(name@),
        decreases dynamic@.len() - i,
    {
        let hit = match dynamic[i].text_at("name") {
            Some(n) => same(n, name),
            None => false,
        };
        if hit {
            proof {
                lemma_entry_at(dynamic@, name@, i as int);
            }
            let mut m = owned("dynamic app '");
            m.append(name);
            m.append("' is not runnable: ");
            match dynamic[i].text_at("reason") {
                Some(reason) => {
                    m.append(reason);
                },
                None => {
                    m.append(default_reason);
                },
            }
            return ApiError::new(CONFLICT, m);
        }
        i += 1;
    }
    proof {
        lemma_entry_at(dynamic@, name@, i as int);
    }
    let mut m = owned("unknown app '");
    m.append(name);
    m.append("'");
    ApiError::new(NOT_FOUND, m)
}

/// The options of an enqueue request, as sent.
#[derive(Debug, PartialEq)]
pub struct EnqueueBody {
    pub max_attempts: Option<i64>,
    pub delay_secs: Option<u64>,
    pub priority: Option<i64>,
    pub budget_usd: Option<Usd>,
    pub idempotency_key: Option<String>,
}

/// The options a job is stored with.
#[derive(Debug, PartialEq)]
pub struct EnqueueOptions {
    pub max_attempts: i64,
    pub delay_secs: u64,
    pub priority: i64,
    pub budget_usd: Option<Usd>,
    pub idempotency_key: Option<String>,
}

/// The key that dedups an enqueue: the header's, or else the body's, unless the
/// one that counts is blank.
pub open spec fn dedup_key(header: Option<String>, body: Option<String>) -> Option<String> {
    let chosen = if header is Some {
        header
    } else {
        body
    };
    match chosen {
        Some(k) => if trimmed(k@).len() == 0 {
            None
        } else {
            Some(k)
        },
        None => None,
    }
}

/// Why an enqueue for a known app is refused: its merged params fail the app's schema,
/// or its budget is no ceiling. Params are judged before the budget.
pub open spec fn enqueue_refusal(body: EnqueueBody, schema: Result<(), String>) -> Option<Seq<char>> {
    match schema {
        Err(m) => Some(m@),
        Ok(_) => match body.budget_usd {
            Some(b) if !is_positive_finite(b.bits) => Some(budget_message(b.shown@)),
            _ => None,
        },
    }
}

/// Whether options are those a request asks for.
pub open spec fn options_asked(
    body: EnqueueBody,
    header_key: Option<String>,
    o: EnqueueOptions,
) -> bool {
    &&& o.max_attempts == clamped(
        match body.max_attempts {
            Some(n) => n,
            None => 1,
        },
        1,
        20,
    )
    &&& o.delay_secs == match body.delay_secs {
        Some(n) => n,
        None => 0,
    }
    &&& o.priority == match body.priority {
        Some(n) => n,
        None => 0,
    }
    &&& o.budget_usd == body.budget_usd
    &&& o.idempotency_key == dedup_key(header_key, body.idempotency_key)
}

/// The idempotency key is the header's where one was sent, else the body's; a
/// blank one is none, and a blank header is not made good by the body.
pub proof fn law_the_header_key_comes_before_the_bodys(header: Option<String>, body: Option<String>)
    ensures
        header matches Some(k) ==> dedup_key(header, body) == if trimmed(k@).len() > 0 {
            Some(k)
        } else {
            None
        },
        header is None && body is Some ==> dedup_key(header, body) == if trimmed(body->0@).len()
            > 0 {
            body
        } else {
            None
        },
        header is None && body is None ==> dedup_key(header, body) is None,
{
}

/// A job tries between once and twenty times, as often as was asked where that
/// lies between, and once where nothing was asked; what else was not asked for is
/// no delay and no priority.
pub proof fn law_options_hold_what_was_asked_for(
    body: EnqueueBody,
    header_key: Option<String>,
    o: EnqueueOptions,
)
    requires
        options_asked(body, header_key, o),
    ensures
        1 <= o.max_attempts <= 20,
        body.max_attempts is None ==> o.max_attempts == 1,
        body.max_attempts matches Some(n) ==> {
            &&& 1 <= n <= 20 ==> o.max_attempts == n
            &&& n < 1 ==> o.max_attempts == 1
            &&& n > 20 ==> o.max_attempts == 20
        },
        body.delay_secs matches Some(n) ==> o.delay_secs == n,
        body.delay_secs is None ==> o.delay_secs == 0,
        body.priority matches Some(n) ==> o.priority == n,
        body.priority is None ==> o.priority == 0,
        o.budget_usd == body.budget_usd,
{
}

/// A request is refused for its params before its budget, for a budget that is not
/// a positive finite amount, and for nothing else.
pub proof fn law_params_are_judged_before_the_budget(
    body: EnqueueBody,
    schema: Result<(), String>,
)
    ensures
        schema matches Err(m) ==> enqueue_refusal(body, schema) == Some(m@),
        schema is Ok && (body.budget_usd is None || 0 < body.budget_usd->0.bits
            < 0x7FF0_0000_0000_0000) ==> enqueue_refusal(body, schema) is None,
        schema is Ok && body.budget_usd is Some && !(0 < body.budget_usd->0.bits
            < 0x7FF0_0000_0000_0000) ==> enqueue_refusal(body, schema) == Some(
            BUDGET_HEAD@ + body.budget_usd->0.shown@ + BUDGET_MIDDLE@ + body.budget_usd->0.shown@
                + BUDGET_TAIL@,
        ),
{
}

/// The options of a job, given whether its merged params satisfy the app's
/// schema.
pub fn enqueue_options(
    body: EnqueueBody,
    header_key: Option<String>,
    schema: Result<(), String>,
) -> (r: Result<EnqueueOptions, ApiError>)
    ensures
        match enqueue_refusal(body, schema) {
            Some(m) => r matches Err(e) && e@ == (422u16, m),
            None => r matches Ok(o) && options_asked(body, header_key, o),
        },
{
    if let Err(m) = schema {
        return Err(ApiError::new(UNPROCESSABLE_ENTITY, m));
    }
    let budget_usd = match validate_budget_usd(body.budget_usd) {
        Ok(b) => b,
        Err(m) => {
            return Err(ApiError::new(UNPROCESSABLE_ENTITY, m));
        },
    };
    let chosen = if header_key.is_some() {
        header_key
    } else {
        body.idempotency_key
    };
    let idempotency_key = match chosen {
        Some(k) => if trim(k.as_str()).as_str().is_empty() {
            None
        } else {
            Some(k)
        },
        None => None,
    };
    let attempts: i64 = match body.max_attempts {
        Some(n) => n,
        None => 1,
    };
    let delay_secs: u64 = match body.delay_secs {
        Some(n) => n,
        None => 0,
    };
    let priority: i64 = match body.priority {
        Some(n) => n,
        None => 0,
    };
    Ok(
        EnqueueOptions {
            max_attempts: clamp(attempts, 1, crate::error::MAX_ATTEMPTS_CAP),
            delay_secs,
            priority,
            budget_usd,
            idempotency_key,
        },
    )
}

/// What an enqueue names: the app, and what is known of it.
#[derive(Debug)]
pub struct EnqueueTarget {
    pub name: String,
    /// The default params of an app that is compiled in.
    pub defaults: Option<Json>,
    /// The apps that discovery listed.
    pub dynamic: Vec<Json>,
    /// Why a listed app without a reason of its own cannot run.
    pub dynamic_reason: String,
}

/// Reads an enqueue: the params and the options the job is stored with, or its
/// refusal. The job runs with the request's params merged over the app's defaults, and
/// those merged params are what `schema` judged.
pub fn enqueue_job(
    target: EnqueueTarget,
    over: Option<Json>,
    schema: Result<(), String>,
    body: EnqueueBody,
    header_key: Option<String>,
) -> (r: Result<(Json, EnqueueOptions), ApiError>)
    ensures
        match target.defaults {
            None => r matches Err(e) && e@ == unknown_app_answer(
                target.name@,
                target.dynamic@,
                target.dynamic_reason@,
            ),
            Some(defaults) => match enqueue_refusal(body, schema) {
                Some(m) => r matches Err(e) && e@ == (422u16, m),
                None => {
                    &&& r matches Ok((params, o))
                    &&& params@ == merged(
                        defaults@,
                        match over {
                            Some(p) => Some(p@),
                            None => None,
                        },
                    )
                    &&& options_asked(body, header_key, o)
                },
            },
        },
{
    let defaults = match target.defaults {
        Some(defaults) => defaults,
        None => {
            return Err(
                unknown_app(
                    target.name.as_str(),
                    &target.dynamic,
                    target.dynamic_reason.as_str(),
                ),
            );
        },
    };
    match enqueue_options(body, header_key, schema) {
        Ok(options) => Ok((merge_params(defaults, over), options)),
        Err(e) => Err(e),
    }
}

/// The status an enqueue is answered with: accepted, or the original job of a
/// replayed request.
pub fn enqueue_status(created: bool) -> (r: u16)
    ensures
        created ==> r == 202,
        !created ==> r == 200,
{
    if created {
        202
    } else {
        200
    }
}

/// Where a job stands.
#[derive(Debug, Clone, Copy, PartialEq, Eq, Structural)]
pub enum JobStatus {
    Queued,
    Running,
    Waiting,
    Succeeded,
    Failed,
    Cancelled,
}

impl JobStatus {
    /// The status as the API writes it.
    pub open spec fn text(self) -> Seq<char> {
        match self {
            JobStatus::Queued => "queued"@,
            JobStatus::Running => "running"@,
            JobStatus::Waiting => "waiting"@,
            JobStatus::Succeeded => "succeeded"@,
            JobStatus::Failed => "failed"@,
            JobStatus::Cancelled => "cancelled"@,
        }
    }

    /// The status as the API writes it.
    pub fn as_str(self) -> (r: &'static str)
        ensures
            r@ == self.text(),
    {
        match self {
            JobStatus::Queued => "queued",
            JobStatus::Running => "running",
            JobStatus::Waiting => "waiting",
            JobStatus::Succeeded => "succeeded",
            JobStatus::Failed => "failed",
            JobStatus::Cancelled => "cancelled",
        }
    }

    /// The status a text names.
    pub fn parse(s: &str) -> (r: Option<JobStatus>)
        ensures
            r matches Some(status) ==> status.text() == s@,
            r is None ==> forall|status: JobStatus| #[trigger] status.text() != s@,
    {
        if same(s, "queued") {
            Some(JobStatus::Queued)
        } else if same(s, "running") {
            Some(JobStatus::Running)
        } else if same(s, "waiting") {
            Some(JobStatus::Waiting)
        } else if same(s, "succeeded") {
            Some(JobStatus::Succeeded)
        } else if same(s, "failed") {
            Some(JobStatus::Failed)
        } else if same(s, "cancelled") {
            Some(JobStatus::Cancelled)
        } else {
            None
        }
    }

    /// Whether a job in this state is over.
    pub open spec fn terminal(self) -> bool {
        self == JobStatus::Succeeded || self == JobStatus::Failed || self == JobStatus::Cancelled
    }
}

/// Whether a job in this state is over.
pub fn is_terminal(status: JobStatus) -> (r: bool)
    ensures
        r == status.terminal(),
{
    match status {
        JobStatus::Succeeded | JobStatus::Failed | JobStatus::Cancelled => true,
        _ => false,
    }
}

/// Different statuses have different texts, so that a status read back is the one
/// that was written.
pub proof fn law_status_texts_are_distinct(a: JobStatus, b: JobStatus)
    requires
        a.text() == b.text(),
    ensures
        a == b,
{
    reveal_strlit("queued");
    reveal_strlit("running");
    reveal_strlit("waiting");
    reveal_strlit("succeeded");
    reveal_strlit("failed");
    reveal_strlit("cancelled");
    assert("queued"@[0] == 'q' && "running"@[0] == 'r' && "waiting"@[0] == 'w');
    assert("succeeded"@[0] == 's' && "failed"@[0] == 'f' && "cancelled"@[0] == 'c');
}

/// A job is over where it succeeded, failed or was cancelled, and goes by its name in
/// lower case.
pub proof fn law_a_job_is_over_in_three_ways()
    ensures
        !JobStatus::Queued.terminal() && JobStatus::Queued.text() == "queued"@,
        !JobStatus::Running.terminal() && JobStatus::Running.text() == "running"@,
        !JobStatus::Waiting.terminal() && JobStatus::Waiting.text() == "waiting"@,
        JobStatus::Succeeded.terminal() && JobStatus::Succeeded.text() == "succeeded"@,
        JobStatus::Failed.terminal() && JobStatus::Failed.text() == "failed"@,
        JobStatus::Cancelled.terminal() && JobStatus::Cancelled.text() == "cancelled"@,
{
}

/// What a job listing asks the store for.
#[derive(Debug)]
pub struct JobListPlan {
    pub status: Option<JobStatus>,
    pub limit: i64,
    pub paged: bool,
    pub after: Option<(String, String)>,
}

/// Reads a job listing's query. An unknown status is refused.
pub fn list_jobs(status: &Option<String>, limit: i64, cursor: &Option<String>) -> (r: Result<
    JobListPlan,
    ApiError,
>)
    ensures
        match r {
            Ok(p) => {
                &&& p.limit == clamped(limit, 1, 500)
                &&& match *status {
                    Some(s) => p.status matches Some(known) && known.text() == s@,
                    None => p.status is None,
                }
                &&& p.paged == cursor is Some
                &&& match *cursor {
                    Some(c) => pair_view(p.after) == cursor_pair(c@),
                    None => p.after is None,
                }
            },
            Err(e) => {
                &&& status matches Some(s)
                &&& forall|known: JobStatus| #[trigger] known.text() != s@
                &&& e@ == (400u16, "invalid status '"@ + s@ + "'"@)
            },
        },
{
    let known = match status {
        Some(s) => match JobStatus::parse(s.as_str()) {
            Some(k) => Some(k),
            None => {
                let mut m = owned("invalid status '");
                m.append(s.as_str());
                m.append("'");
                return Err(ApiError::new(BAD_REQUEST, m));
            },
        },
        None => None,
    };
    let after = match cursor {
        Some(c) => parse_cursor(c.as_str()),
        None => None,
    };
    Ok(
        JobListPlan {
            status: known,
            limit: clamp(limit, 1, 500),
            paged: cursor.is_some(),
            after,
        },
    )
}

/// What a state-guarded change that changed nothing is answered: a missing job, a
/// job in the wrong state, or the failure of the lookup that tells them apart.
pub fn job_state_error(found: Result<bool, Error>, wrong_state: &str) -> (r: ApiError)
    ensures
        match found {
            Ok(true) => r@ == (409u16, wrong_state@),
            Ok(false) => r@ == (404u16, "job not found"@),
            Err(e) => r@ == disclosed(e),
        },
{
    match found {
        Ok(true) => ApiError::fixed(CONFLICT, wrong_state),
        Ok(false) => ApiError::fixed(NOT_FOUND, "job not found"),
        Err(e) => client_facing(&e),
    }
}

/// Which jobs a bulk retry resurrects, and how many at most.
pub fn bulk_retry_plan(status: &Option<String>, limit: Option<i64>) -> (r: Result<
    (JobStatus, i64),
    ApiError,
>)
    ensures
        ({
            let wanted = match *status {
                Some(s) => s@,
                None => "failed"@,
            };
            match r {
                Ok((state, cap)) => {
                    &&& wanted == state.text()
                    &&& state == JobStatus::Failed || state == JobStatus::Cancelled
                    &&& cap == clamped(
                        match limit {
                            Some(n) => n,
                            None => 500,
                        },
                        1,
                        500,
                    )
                },
                Err(e) => {
                    &&& wanted != "failed"@ && wanted != "cancelled"@
                    &&& e@ == (
                        400u16,
                        "status must be failed|cancelled, got '"@ + wanted + "'"@,
                    )
                },
            }
        }),
{
    let wanted = match status {
        Some(s) => s.as_str(),
        None => "failed",
    };
    let state = if same(wanted, "failed") {
        JobStatus::Failed
    } else if same(wanted, "cancelled") {
        JobStatus::Cancelled
    } else {
        let mut m = owned("status must be failed|cancelled, got '");
        m.append(wanted);
        m.append("'");
        return Err(ApiError::new(BAD_REQUEST, m));
    };
    let cap: i64 = match limit {
        Some(n) => n,
        None => 500,
    };
    Ok((state, clamp(cap, 1, 500)))
}

/// A change of a job's state, as the event bus announces it.
#[derive(Debug, PartialEq)]
pub struct JobEvent {
    pub job_id: [u8; 16],
    pub app: String,
    pub status: JobStatus,
}

/// The `queued` events a bulk retry announces: one per job, each carrying that
/// job's own app, without which no app-scoped watcher would see it.
pub fn requeued_events(requeued: &[([u8; 16], String)]) -> (r: Vec<JobEvent>)
    ensures
        r@.len() == requeued@.len(),
        forall|i: int|
            0 <= i < r@.len() ==> (#[trigger] r@[i]).job_id == requeued@[i].0 && r@[i].app@
                == requeued@[i].1@ && r@[i].status == JobStatus::Queued,
{
    let mut out: Vec<JobEvent> = Vec::new();
    let mut i: usize = 0;
    while i < requeued.len()
        invariant
            i <= requeued@.len(),
            out@.len() == i,
            forall|k: int|
                0 <= k < i ==> (#[trigger] out@[k]).job_id == requeued@[k].0 && out@[k].app@
                    == requeued@[k].1@ && out@[k].status == JobStatus::Queued,
        decreases requeued@.len() - i,
    {
        out.push(
            JobEvent {
                job_id: requeued[i].0,
                app: owned(requeued[i].1.as_str()),
                status: JobStatus::Queued,
            },
        );
        i += 1;
    }
    out
}

/// The ids of re-queued jobs, as their texts.
pub open spec fn requeued_ids(requeued: Seq<([u8; 16], String)>) -> Seq<JsonModel> {
    Seq::new(requeued.len(), |i: int| JsonModel::Text(uuid_text(requeued[i].0@)))
}

/// The answer to a bulk retry: how many jobs were re-queued, and which.
pub fn bulk_retry_jobs(requeued: &[([u8; 16], String)]) -> (r: Json)
    ensures
        r@ == JsonModel::object().put(
            "retried"@,
            JsonModel::integer(requeued@.len() as int),
        ).put("ids"@, JsonModel::Array(requeued_ids(requeued@))),
{
    let mut ids: Vec<Json> = Vec::new();
    let mut i: usize = 0;
    while i < requeued.len()
        invariant
            i <= requeued@.len(),
            ids@.len() == i,
            forall|k: int|
                0 <= k < i ==> (#[trigger] ids@[k])@ == JsonModel::Text(
                    uuid_text(requeued@[k].0@),
                ),
        decreases requeued@.len() - i,
    {
        ids.push(Json::text(show_uuid(&requeued[i].0).as_str()));
        i += 1;
    }
    assert(models(ids@) =~= requeued_ids(requeued@));
    let mut out = Json::object();
    out.set("retried", Json::unsigned(requeued.len() as u64));
    out.set("ids", Json::array(ids));
    out
}

/// What a fired cancellation token turned out to mean.
#[derive(Debug, Clone, Copy, PartialEq, Eq, Structural)]
pub enum CancelKind {
    /// The user's cancel reached the run first.
    User,
    /// The run had already committed to a checkpoint suspend.
    ShutdownSuspend,
}

pub const SUSPENDED_NOTE: &'static str =
    "the server is shutting down and this run had already committed to a checkpoint suspend, so it was re-queued rather than cancelled — it resumes on the next boot. Cancel it again once the server is back up.";

/// The answer of a cancel that found the job: cancelled while it was queued,
/// cancelled in flight, or re-queued by the shutdown instead, which is no
/// cancellation and does not claim to be one.
pub open spec fn cancel_answer(queued: bool, running: CancelKind) -> JsonModel {
    if queued {
        JsonModel::object().put("cancelled"@, JsonModel::Bool(true))
    } else {
        match running {
            CancelKind::User => JsonModel::object().put("cancelled"@, JsonModel::Bool(true)).put(
                "running"@,
                JsonModel::Bool(true),
            ),
            CancelKind::ShutdownSuspend => JsonModel::object().put(
                "cancelled"@,
                JsonModel::Bool(false),
            ).put("running"@, JsonModel::Bool(true)).put("suspended"@, JsonModel::Bool(true)).put(
                "note"@,
                JsonModel::Text(SUSPENDED_NOTE@),
            ),
        }
    }
}

/// A cancellation says whether the job is cancelled, and whether it was running: a
/// run that had committed to a suspend is not, and comes back.
pub proof fn law_a_cancellation_tells_what_became_of_the_job(queued: bool, running: CancelKind)
    ensures
        ({
            let said = cancel_answer(queued, running);
            &&& said.get("cancelled"@) == Some(
                JsonModel::Bool(queued || running == CancelKind::User),
            )
            &&& queued ==> said.get("running"@) is None
            &&& !queued ==> said.get("running"@) == Some(JsonModel::Bool(true))
            &&& queued || running == CancelKind::User ==> said.get("suspended"@) is None
            &&& !queued && running == CancelKind::ShutdownSuspend ==> said.get("suspended"@)
                == Some(JsonModel::Bool(true)) && said.get("note"@) == Some(
                JsonModel::Text(SUSPENDED_NOTE@),
            )
        }),
{
    reveal_strlit("cancelled");
    reveal_strlit("running");
    reveal_strlit("suspended");
    reveal_strlit("note");
    assert("cancelled"@[0] != "suspended"@[0]);
    let m0 = JsonModel::object();
    lemma_put(m0, "cancelled"@, JsonModel::Bool(true));
    lemma_put(m0, "cancelled"@, JsonModel::Bool(false));
    let m1 = m0.put("cancelled"@, JsonModel::Bool(true));
    lemma_put(m1, "running"@, JsonModel::Bool(true));
    let n1 = m0.put("cancelled"@, JsonModel::Bool(false));
    lemma_put(n1, "running"@, JsonModel::Bool(true));
    let n2 = n1.put("running"@, JsonModel::Bool(true));
    lemma_put(n2, "suspended"@, JsonModel::Bool(true));
    let n3 = n2.put("suspended"@, JsonModel::Bool(true));
    lemma_put(n3, "note"@, JsonModel::Text(SUSPENDED_NOTE@));
    assert(m0.get("running"@) is None);
    assert(m0.get("suspended"@) is None);
}

/// Answers a cancel, given whether the job was cancelled while queued, what its
/// token meant if it was running here, and what a lookup finds if neither.
pub fn cancel_job(
    queued: bool,
    running: Option<CancelKind>,
    found: Result<bool, Error>,
) -> (r: Result<Json, ApiError>)
    ensures
        if queued {
            r matches Ok(j) && j@ == cancel_answer(true, CancelKind::User)
        } else {
            match running {
                Some(kind) => r matches Ok(j) && j@ == cancel_answer(false, kind),
                None => r matches Err(e) && e@ == match found {
                    Ok(true) => (
                        409u16,
                        "job is already terminal (succeeded/failed/cancelled)"@,
                    ),
                    Ok(false) => (404u16, "job not found"@),
                    Err(fault) => disclosed(fault),
                },
            }
        },
{
    let mut out = Json::object();
    if queued {
        out.set("cancelled", Json::Bool(true));
        return Ok(out);
    }
    match running {
        Some(CancelKind::User) => {
            out.set("cancelled", Json::Bool(true));
            out.set("running", Json::Bool(true));
            Ok(out)
        },
        Some(CancelKind::ShutdownSuspend) => {
            out.set("cancelled", Json::Bool(false));
            out.set("running", Json::Bool(true));
            out.set("suspended", Json::Bool(true));
            out.set("note", Json::text(SUSPENDED_NOTE));
            Ok(out)
        },
        None => Err(
            job_state_error(found, "job is already terminal (succeeded/failed/cancelled)"),
        ),
    }
}

/// A count in a job's result, zero when it is not there.
pub open spec fn result_count(result: JsonModel, key: Seq<char>) -> u64 {
    match result.get(key) {
        Some(v) => match v.as_u64() {
            Some(n) => n,
            None => 0,
        },
        None => 0,
    }
}

/// A count of a result is the number it keeps under the key, and zero where it keeps
/// none.
pub proof fn law_a_count_is_read_off_the_result(result: JsonModel, key: Seq<char>)
    ensures
        result.get(key) matches Some(v) ==> (v.as_u64() matches Some(n) ==> result_count(result, key)
            == n),
        result.get(key) is None || result.get(key)->0.as_u64() is None ==> result_count(result, key)
            == 0,
{
}

fn read_count(result: &Json, key: &str) -> (r: u64)
    ensures
        r == result_count(result@, key@),
{
    match result.get(key) {
        Some(v) => match v.as_u64() {
            Some(n) => n,
            None => 0,
        },
        None => 0,
    }
}

/// The fresh records a job's result reports: new ones and changed ones. A job
/// without a result has an unknown yield, not a zero one.
pub fn fresh_records(result: Option<&Json>) -> (r: Option<u128>)
    ensures
        match result {
            None => r is None,
            Some(j) => r matches Some(n) && n == result_count(j@, "new"@) + result_count(
                j@,
                "changed"@,
            ),
        },
{
    match result {
        None => None,
        Some(j) => Some(read_count(j, "new") as u128 + read_count(j, "changed") as u128),
    }
}

/// A job as it is shown: a running one with its latest progress.
pub fn get_job(job: Option<Json>, progress: Option<Json>) -> (r: Result<Json, ApiError>)
    ensures
        match job {
            None => r matches Err(e) && e@ == (404u16, "job not found"@),
            Some(body) => r matches Ok(j) && j@ == match progress {
                Some(snapshot) => body@.put("progress"@, snapshot@),
                None => body@,
            },
        },
{
    match job {
        None => Err(ApiError::fixed(NOT_FOUND, "job not found")),
        Some(body) => {
            let mut out = body;
            if let Some(snapshot) = progress {
                out.set("progress", snapshot);
            }
            Ok(out)
        },
    }
}

} // verus!
