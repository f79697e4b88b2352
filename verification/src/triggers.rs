//! Reactive triggers and the delivery log: what may be stored, whether a dry run
//! would fire, and how a delivery is sent again.

use vstd::prelude::*;

use crate::datasets::{clamp, clamped, text_view};
use crate::error::{
    ApiError, BAD_REQUEST, INTERNAL_MESSAGE, INTERNAL_SERVER_ERROR, MAX_ATTEMPTS_CAP, NOT_FOUND,
    UNPROCESSABLE_ENTITY,
};
use crate::ident::{read_uuid, show_uuid, uuid_reading, uuid_text};
use crate::jobs::{budget_message, is_positive_finite, validate_budget_usd, Usd};
use crate::json::{lemma_put, Json, JsonModel};
use crate::text::{owned, same};

verus! {

/// A request for a trigger.
#[derive(Debug, PartialEq)]
pub struct CreateTriggerBody {
    pub name: Option<String>,
    /// `dataset` or `job`.
    pub source_kind: String,
    pub source_app: String,
    pub source_dataset: Option<String>,
    pub on_change: Option<String>,
    pub on_status: Option<String>,
    pub target_app: String,
    pub params: Option<Json>,
    pub budget_usd: Option<Usd>,
    pub priority: Option<i64>,
    pub max_attempts: Option<i64>,
}

/// A trigger that may be stored.
#[derive(Debug, PartialEq)]
pub struct NewTrigger {
    pub name: Option<String>,
    pub source_kind: String,
    pub source_app: String,
    pub source_dataset: Option<String>,
    pub on_change: Option<String>,
    pub on_status: Option<String>,
    pub target_app: String,
    pub params: Json,
    pub budget_usd: Option<Usd>,
    pub priority: i64,
    pub max_attempts: i64,
}

/// What a trigger listens to.
#[derive(Debug, PartialEq)]
pub struct TriggerSource {
    pub source_dataset: Option<String>,
    pub on_change: Option<String>,
    pub on_status: Option<String>,
}

/// What a trigger listens to, by its views.
pub struct SourceModel {
    pub source_dataset: Option<Seq<char>>,
    pub on_change: Option<Seq<char>>,
    pub on_status: Option<Seq<char>>,
}

/// A text, or the one that stands in for it.
pub open spec fn text_or(t: Option<String>, other: Seq<char>) -> Seq<char> {
    match t {
        Some(s) => s@,
        None => other,
    }
}

/// Whether a text names a kind of change.
pub open spec fn is_change(s: Seq<char>) -> bool {
    s == "new"@ || s == "changed"@ || s == "removed"@ || s == "fresh"@ || s == "any"@
}

/// Whether a text names an outcome a trigger can wait for.
pub open spec fn is_outcome(s: Seq<char>) -> bool {
    s == "succeeded"@ || s == "failed"@ || s == "any"@
}

/// What a request listens to, or why it cannot: a change feed takes no status,
/// and a job takes no dataset and no kind of change.
pub open spec fn source_of(body: CreateTriggerBody) -> Result<SourceModel, Seq<char>> {
    let change = text_or(body.on_change, "fresh"@);
    let status = text_or(body.on_status, "succeeded"@);
    if body.source_kind@ == "dataset"@ {
        if !is_change(change) {
            Err("invalid on_change '"@ + change + "'"@)
        } else if body.on_status is Some {
            Err("on_status is only valid for source_kind 'job'"@)
        } else {
            Ok(
                SourceModel {
                    source_dataset: Some(text_or(body.source_dataset, "*"@)),
                    on_change: Some(change),
                    on_status: None,
                },
            )
        }
    } else if body.source_kind@ == "job"@ {
        if !is_outcome(status) {
            Err("invalid on_status '"@ + status + "'"@)
        } else if body.source_dataset is Some || body.on_change is Some {
            Err("source_dataset/on_change are only valid for source_kind 'dataset'"@)
        } else {
            Ok(SourceModel { source_dataset: None, on_change: None, on_status: Some(status) })
        }
    } else {
        Err("invalid source_kind '"@ + body.source_kind@ + "' (dataset | job)"@)
    }
}

fn owned_or(t: &Option<String>, other: &str) -> (r: String)
    ensures
        r@ == text_or(*t, other@),
{
    match t {
        Some(s) => owned(s.as_str()),
        None => owned(other),
    }
}

fn quoted(head: &str, what: &str, tail: &str) -> (r: String)
    ensures
        r@ == head@ + what@ + tail@,
{
    let mut m = owned(head);
    m.append(what);
    m.append(tail);
    m
}

fn read_source(body: &CreateTriggerBody) -> (r: Result<TriggerSource, String>)
    ensures
        match source_of(*body) {
            Ok(s) => r matches Ok(t) && text_view(t.source_dataset) == s.source_dataset && text_view(
                t.on_change,
            ) == s.on_change && text_view(t.on_status) == s.on_status,
            Err(m) => r matches Err(e) && e@ == m,
        },
{
    let kind = body.source_kind.as_str();
    if same(kind, "dataset") {
        let change = owned_or(&body.on_change, "fresh");
        let c = change.as_str();
        if !(same(c, "new") || same(c, "changed") || same(c, "removed") || same(c, "fresh") || same(
            c,
            "any",
        )) {
            return Err(quoted("invalid on_change '", c, "'"));
        }
        if body.on_status.is_some() {
            return Err(owned("on_status is only valid for source_kind 'job'"));
        }
        let dataset = owned_or(&body.source_dataset, "*");
        return Ok(
            TriggerSource {
                source_dataset: Some(dataset),
                on_change: Some(change),
                on_status: None,
            },
        );
    }
    if same(kind, "job") {
        let status = owned_or(&body.on_status, "succeeded");
        let s = status.as_str();
        if !(same(s, "succeeded") || same(s, "failed") || same(s, "any")) {
            return Err(quoted("invalid on_status '", s, "'"));
        }
        if body.source_dataset.is_some() || body.on_change.is_some() {
            return Err(
                owned("source_dataset/on_change are only valid for source_kind 'dataset'"),
            );
        }
        return Ok(
            TriggerSource { source_dataset: None, on_change: None, on_status: Some(status) },
        );
    }
    Err(quoted("invalid source_kind '", kind, "' (dataset | job)"))
}

/// Reads a request for a trigger. Only the target must be a known app: the source
/// may be a virtual namespace. A ceiling that is no ceiling is refused, since
/// dropping it would leave the target without any.
pub fn create_trigger(body: CreateTriggerBody, target_known: bool) -> (r: Result<
    NewTrigger,
    ApiError,
>)
    ensures
        if !target_known {
            r matches Err(e) && e@ == (404u16, "unknown target app '"@ + body.target_app@ + "'"@)
        } else {
            match source_of(body) {
                Err(m) => r matches Err(e) && e@ == (400u16, m),
                Ok(s) => if body.budget_usd is Some && !is_positive_finite(
                    body.budget_usd->0.bits,
                ) {
                    r matches Err(e) && e@ == (422u16, budget_message(body.budget_usd->0.shown@))
                } else {
                    &&& r matches Ok(t)
                    &&& t.name == body.name
                    &&& t.source_kind == body.source_kind
                    &&& t.source_app == body.source_app
                    &&& text_view(t.source_dataset) == s.source_dataset
                    &&& text_view(t.on_change) == s.on_change
                    &&& text_view(t.on_status) == s.on_status
                    &&& t.target_app == body.target_app
                    &&& t.params@ == match body.params {
                        Some(p) => p@,
                        None => JsonModel::object(),
                    }
                    &&& t.budget_usd == body.budget_usd
                    &&& t.priority == match body.priority {
                        Some(n) => n,
                        None => 0,
                    }
                    &&& t.max_attempts == clamped(
                        match body.max_attempts {
                            Some(n) => n,
                            None => 1,
                        },
                        1,
                        20,
                    )
                },
            }
        },
{
    if !target_known {
        return Err(
            ApiError::new(
                NOT_FOUND,
                quoted("unknown target app '", body.target_app.as_str(), "'"),
            ),
        );
    }
    let source = match read_source(&body) {
        Ok(s) => s,
        Err(m) => {
            return Err(ApiError::new(BAD_REQUEST, m));
        },
    };
    let budget_usd = match validate_budget_usd(body.budget_usd) {
        Ok(b) => b,
        Err(m) => {
            return Err(ApiError::new(UNPROCESSABLE_ENTITY, m));
        },
    };
    let params = match body.params {
        Some(p) => p,
        None => Json::object(),
    };
    let priority: i64 = match body.priority {
        Some(n) => n,
        None => 0,
    };
    let attempts: i64 = match body.max_attempts {
        Some(n) => n,
        None => 1,
    };
    Ok(
        NewTrigger {
            name: body.name,
            source_kind: body.source_kind,
            source_app: body.source_app,
            source_dataset: source.source_dataset,
            on_change: source.on_change,
            on_status: source.on_status,
            target_app: body.target_app,
            params,
            budget_usd,
            priority,
            max_attempts: clamp(attempts, 1, MAX_ATTEMPTS_CAP),
        },
    )
}

/// A stored trigger listens to exactly one kind of thing: a change feed, with a
/// dataset and a kind of change, or a job, with an outcome.
pub proof fn law_a_trigger_has_one_source(body: CreateTriggerBody)
    ensures
        source_of(body) matches Ok(s) ==> {
            &&& (s.on_change is Some) != (s.on_status is Some)
            &&& s.source_dataset is Some <==> s.on_change is Some
            &&& s.on_change matches Some(c) ==> is_change(c)
            &&& s.on_status matches Some(o) ==> is_outcome(o)
        },
{
    reveal_strlit("dataset");
    reveal_strlit("job");
    assert("dataset"@.len() != "job"@.len());
}

/// A trigger on a dataset watches the one it names, or all, for the change it names,
/// or anything fresh; one on jobs waits for the outcome it names, or success. Each
/// refuses the other's parameters, and no other kind of source is known.
pub proof fn law_a_triggers_source_is_read_by_its_kind(body: CreateTriggerBody)
    ensures
        body.source_kind@ != "dataset"@ && body.source_kind@ != "job"@ ==> source_of(body) is Err,
        body.source_kind@ == "dataset"@ ==> {
            let change = match body.on_change {
                Some(c) => c@,
                None => "fresh"@,
            };
            let known = change == "new"@ || change == "changed"@ || change == "removed"@ || change
                == "fresh"@ || change == "any"@;
            &&& source_of(body) is Ok <==> known && body.on_status is None
            &&& source_of(body) matches Ok(s) ==> s.on_change == Some(change) && s.on_status is None
                && s.source_dataset == match body.source_dataset {
                Some(d) => Some(d@),
                None => Some("*"@),
            }
        },
        body.source_kind@ == "job"@ ==> {
            let status = match body.on_status {
                Some(c) => c@,
                None => "succeeded"@,
            };
            let known = status == "succeeded"@ || status == "failed"@ || status == "any"@;
            &&& source_of(body) is Ok <==> known && body.source_dataset is None
                && body.on_change is None
            &&& source_of(body) matches Ok(s) ==> s.on_status == Some(status) && s.on_change is None
                && s.source_dataset is None
        },
{
    reveal_strlit("dataset");
    reveal_strlit("job");
    assert("dataset"@.len() != "job"@.len());
}

/// Whether the chain that led to the source job admits another hop.
#[derive(Debug, Clone, Copy, PartialEq, Eq, Structural)]
pub enum FireDecision {
    Fire,
    /// The trigger is already in the chain.
    SkipCycle,
    /// The chain is as long as it may be.
    SkipDepth,
}

/// A change of the latest run: whether the trigger covers its dataset, and whether it
/// is of the kind the trigger waits for.
#[derive(Debug, Clone, Copy, PartialEq, Eq, Structural)]
pub struct ChangeSeen {
    pub covered: bool,
    pub of_kind: bool,
}

/// Which of a run's changes a trigger reacts to: those it covers and whose kind
/// it waits for, by position.
pub open spec fn reacting(changes: Seq<ChangeSeen>) -> Seq<int>
    decreases changes.len(),
{
    if changes.len() == 0 {
        Seq::empty()
    } else {
        let rest = reacting(changes.drop_last());
        if changes.last().covered && changes.last().of_kind {
            rest.push(changes.len() - 1)
        } else {
            rest
        }
    }
}

/// Which of a run's changes a trigger reacts to.
pub fn matching_changes(changes: &[ChangeSeen]) -> (r: Vec<usize>)
    ensures
        r@.map_values(|i: usize| i as int) == reacting(changes@),
{
    let mut out: Vec<usize> = Vec::new();
    let mut i: usize = 0;
    while i < changes.len()
        invariant
            i <= changes@.len(),
            out@.map_values(|k: usize| k as int) =~= reacting(changes@.take(i as int)),
        decreases changes@.len() - i,
    {
        assert(changes@.take(i + 1).drop_last() =~= changes@.take(i as int));
        if changes[i].covered && changes[i].of_kind {
            let ghost had = out@;
            out.push(i);
            assert(out@.map_values(|k: usize| k as int) =~= had.map_values(|k: usize| k as int).push(
                i as int,
            ));
        }
        i += 1;
    }
    assert(changes@.take(changes@.len() as int) =~= changes@);
    out
}


/// The changes a trigger reacts to are those of its dataset that are of its kind, in
/// order and once each.
pub proof fn law_a_trigger_reacts_to_its_own_changes(changes: Seq<ChangeSeen>)
    ensures
        forall|i: int|
            #![trigger reacting(changes).contains(i)]
            reacting(changes).contains(i) <==> 0 <= i < changes.len() && changes[i].covered
                && changes[i].of_kind,
        forall|a: int, b: int|
            0 <= a < b < reacting(changes).len() ==> #[trigger] reacting(changes)[a]
                < #[trigger] reacting(changes)[b],
        forall|a: int|
            0 <= a < reacting(changes).len() ==> 0 <= #[trigger] reacting(changes)[a]
                < changes.len(),
    decreases changes.len(),
{
    if changes.len() > 0 {
        let front = changes.drop_last();
        law_a_trigger_reacts_to_its_own_changes(front);
        let rest = reacting(front);
        let n = changes.len() - 1;
        assert forall|i: int|
            #![trigger reacting(changes).contains(i)]
            reacting(changes).contains(i) <==> 0 <= i < changes.len() && changes[i].covered
                && changes[i].of_kind by {
            assert(rest.contains(i) <==> 0 <= i < front.len() && front[i].covered
                && front[i].of_kind);
            if changes.last().covered && changes.last().of_kind {
                let more = rest.push(n);
                if rest.contains(i) {
                    let k = choose|k: int| 0 <= k < rest.len() && rest[k] == i;
                    assert(more[k] == i);
                }
                if i == n {
                    assert(more[rest.len() as int] == i);
                }
                if more.contains(i) {
                    let k = choose|k: int| 0 <= k < more.len() && more[k] == i;
                    if k < rest.len() {
                        assert(rest[k] == i);
                    }
                }
            }
        }
    }
}

/// What a dry run found.
#[derive(Debug, PartialEq)]
pub struct TriggerProbe {
    /// Whether the source app has run at all.
    pub has_source: bool,
    pub decision: FireDecision,
    /// Whether the trigger listens to a change feed.
    pub on_dataset: bool,
    /// The changes of the latest run.
    pub changes: Vec<ChangeSeen>,
    /// Whether the latest run's status is the one it waits for.
    pub status_matches: bool,
}

/// Why a trigger would not fire, in the order the reasons are looked for.
pub open spec fn why_not(p: TriggerProbe) -> Option<Seq<char>> {
    if !p.has_source {
        Some("no source job of that app exists yet"@)
    } else if p.decision == FireDecision::SkipCycle {
        Some("cycle: trigger already in the source job's chain"@)
    } else if p.decision == FireDecision::SkipDepth {
        Some("max chain depth reached"@)
    } else if p.on_dataset && reacting(p.changes@).len() == 0 {
        Some("latest source run produced no matching changes"@)
    } else if !p.on_dataset && !p.status_matches {
        Some("latest source job's status does not match on_status"@)
    } else {
        None
    }
}

/// Why a trigger would not fire, or that it would.
pub fn no_fire_reason(p: &TriggerProbe) -> (r: Option<&'static str>)
    ensures
        match r {
            Some(m) => why_not(*p) == Some(m@),
            None => why_not(*p) is None,
        },
{
    if !p.has_source {
        return Some("no source job of that app exists yet");
    }
    match p.decision {
        FireDecision::SkipCycle => {
            return Some("cycle: trigger already in the source job's chain");
        },
        FireDecision::SkipDepth => {
            return Some("max chain depth reached");
        },
        FireDecision::Fire => {},
    }
    if p.on_dataset {
        let matching = matching_changes(&p.changes);
        assert(matching@.map_values(|i: usize| i as int).len() == matching@.len());
        if matching.len() == 0 {
            return Some("latest source run produced no matching changes");
        }
    } else if !p.status_matches {
        return Some("latest source job's status does not match on_status");
    }
    None
}

/// A trigger fires exactly where a source job is there, the chain lets it, and the
/// source's run gave it something to react to: a matching change where it watches a
/// dataset, the awaited outcome where it watches jobs. The reason given is the first
/// that holds.
pub proof fn law_a_trigger_fires_unless_something_stops_it(p: TriggerProbe)
    ensures
        why_not(p) is None <==> p.has_source && p.decision == FireDecision::Fire && if p.on_dataset {
            exists|i: int|
                0 <= i < p.changes@.len() && (#[trigger] p.changes@[i]).covered
                    && p.changes@[i].of_kind
        } else {
            p.status_matches
        },
        !p.has_source ==> why_not(p) == Some("no source job of that app exists yet"@),
        p.has_source && p.decision == FireDecision::SkipCycle ==> why_not(p) == Some(
            "cycle: trigger already in the source job's chain"@,
        ),
        p.has_source && p.decision == FireDecision::SkipDepth ==> why_not(p) == Some(
            "max chain depth reached"@,
        ),
{
    law_a_trigger_reacts_to_its_own_changes(p.changes@);
    let r = reacting(p.changes@);
    if r.len() > 0 {
        assert(r.contains(r[0]));
        assert(p.changes@[r[0]].covered);
    }
    if exists|i: int|
        0 <= i < p.changes@.len() && (#[trigger] p.changes@[i]).covered && p.changes@[i].of_kind {
        let i = choose|i: int|
            0 <= i < p.changes@.len() && (#[trigger] p.changes@[i]).covered
                && p.changes@[i].of_kind;
        assert(r.contains(i));
    }
}

/// The answer of a test: why the trigger would not fire, or what would be enqueued.
/// Where the hop is to be taken for real there is nothing to answer before the job is
/// enqueued.
pub open spec fn test_answer(
    p: TriggerProbe,
    fire: bool,
    target_app: Seq<char>,
    source_job_id: Seq<u8>,
    resolved_params: JsonModel,
) -> Option<JsonModel> {
    match why_not(p) {
        Some(reason) => Some(
            JsonModel::object().put("would_fire"@, JsonModel::Bool(false)).put(
                "reason"@,
                JsonModel::Text(reason),
            ),
        ),
        None => if fire {
            None
        } else {
            Some(
                JsonModel::object().put("would_fire"@, JsonModel::Bool(true)).put(
                    "target_app"@,
                    JsonModel::Text(target_app),
                ).put("source_job_id"@, JsonModel::Text(uuid_text(source_job_id))).put(
                    "resolved_params"@,
                    resolved_params,
                ),
            )
        },
    }
}

/// A dry run says whether the trigger would fire: why not, or which app, from which
/// job and with which params.
pub proof fn law_a_dry_run_tells_what_would_fire(
    p: TriggerProbe,
    target_app: Seq<char>,
    source_job_id: Seq<u8>,
    resolved_params: JsonModel,
)
    ensures
        ({
            let said = test_answer(p, false, target_app, source_job_id, resolved_params)->0;
            &&& said.get("would_fire"@) == Some(JsonModel::Bool(why_not(p) is None))
            &&& why_not(p) matches Some(reason) ==> said.get("reason"@) == Some(
                JsonModel::Text(reason),
            )
            &&& why_not(p) is None ==> {
                &&& said.get("target_app"@) == Some(JsonModel::Text(target_app))
                &&& said.get("source_job_id"@) == Some(JsonModel::Text(uuid_text(source_job_id)))
                &&& said.get("resolved_params"@) == Some(resolved_params)
            }
        }),
{
    reveal_strlit("would_fire");
    reveal_strlit("reason");
    reveal_strlit("target_app");
    reveal_strlit("source_job_id");
    reveal_strlit("resolved_params");
    assert("would_fire"@[0] != "target_app"@[0]);
    let m0 = JsonModel::object();
    if let Some(reason) = why_not(p) {
        lemma_put(m0, "would_fire"@, JsonModel::Bool(false));
        let m1 = m0.put("would_fire"@, JsonModel::Bool(false));
        lemma_put(m1, "reason"@, JsonModel::Text(reason));
    } else {
        lemma_put(m0, "would_fire"@, JsonModel::Bool(true));
        let m1 = m0.put("would_fire"@, JsonModel::Bool(true));
        lemma_put(m1, "target_app"@, JsonModel::Text(target_app));
        let m2 = m1.put("target_app"@, JsonModel::Text(target_app));
        let id = JsonModel::Text(uuid_text(source_job_id));
        lemma_put(m2, "source_job_id"@, id);
        let m3 = m2.put("source_job_id"@, id);
        lemma_put(m3, "resolved_params"@, resolved_params);
    }
}

/// Answers a test, or leaves the hop to be enqueued.
pub fn test_trigger(
    p: &TriggerProbe,
    fire: bool,
    target_app: &str,
    source_job_id: &[u8; 16],
    resolved_params: &Json,
) -> (r: Option<Json>)
    ensures
        match r {
            Some(body) => test_answer(
                *p,
                fire,
                target_app@,
                source_job_id@,
                resolved_params@,
            ) == Some(body@),
            None => test_answer(*p, fire, target_app@, source_job_id@, resolved_params@) is None,
        },
{
    let mut out = Json::object();
    match no_fire_reason(p) {
        Some(reason) => {
            out.set("would_fire", Json::Bool(false));
            out.set("reason", Json::text(reason));
        },
        None => {
            if fire {
                return None;
            }
            out.set("would_fire", Json::Bool(true));
            out.set("target_app", Json::text(target_app));
            out.set("source_job_id", Json::text(show_uuid(source_job_id).as_str()));
            out.set("resolved_params", resolved_params.copy());
        },
    }
    Some(out)
}

/// A hop is taken for real exactly where a dry run would say that the trigger fires.
pub proof fn law_a_hop_is_taken_only_where_a_dry_run_fires(
    p: TriggerProbe,
    target_app: Seq<char>,
    source_job_id: Seq<u8>,
    resolved_params: JsonModel,
)
    ensures
        test_answer(p, true, target_app, source_job_id, resolved_params) is None <==> why_not(p)
            is None,
        test_answer(p, false, target_app, source_job_id, resolved_params) is Some,
        why_not(p) is Some ==> test_answer(p, true, target_app, source_job_id, resolved_params)
            == test_answer(p, false, target_app, source_job_id, resolved_params),
{
}

/// Where the secret of a logged delivery is looked up.
#[derive(Debug, PartialEq)]
pub enum SecretHolder {
    /// The job that called back.
    Job([u8; 16]),
    /// The watch that fired.
    Watch(String),
}

/// Where the secret of a delivery is looked up, given the job id its reference
/// reads as. A job delivery with a reference that does not read is a fault of the
/// store.
pub fn secret_holder(kind: &str, ref_id: &str, job_id: Option<[u8; 16]>) -> (r: Result<
    SecretHolder,
    ApiError,
>)
    ensures
        if kind@ == "job"@ {
            match job_id {
                Some(id) => r == Ok::<SecretHolder, ApiError>(SecretHolder::Job(id)),
                None => r matches Err(e) && e@ == (500u16, INTERNAL_MESSAGE@),
            }
        } else {
            r matches Ok(SecretHolder::Watch(id)) && id@ == ref_id@
        },
{
    if same(kind, "job") {
        return match job_id {
            Some(id) => Ok(SecretHolder::Job(id)),
            None => Err(ApiError::fixed(INTERNAL_SERVER_ERROR, INTERNAL_MESSAGE)),
        };
    }
    Ok(SecretHolder::Watch(owned(ref_id)))
}

/// Where the secret of a logged delivery is looked up when it is sent again.
pub fn replay_delivery(kind: &str, ref_id: &str) -> (r: Result<SecretHolder, ApiError>)
    ensures
        if kind@ == "job"@ {
            match uuid_reading(ref_id@) {
                Some(bytes) => r matches Ok(SecretHolder::Job(id)) && id@ == bytes,
                None => r matches Err(e) && e@ == (500u16, INTERNAL_MESSAGE@),
            }
        } else {
            r matches Ok(SecretHolder::Watch(id)) && id@ == ref_id@
        },
{
    secret_holder(kind, ref_id, read_uuid(ref_id))
}

} // verus!
