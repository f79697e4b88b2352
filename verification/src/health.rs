//! Extraction health: which sources are watched, how far back a preview replays,
//! the operator's override of a source's state, and how a recorded contract
//! verdict is aged before it is shown.

use vstd::prelude::*;

use crate::clock::{age_of, age_seconds, read_rfc3339, rfc3339_reading, Instant};
use crate::datasets::{clamp, clamped};
use crate::error::{ApiError, BAD_REQUEST, NOT_FOUND, SERVICE_UNAVAILABLE};
use crate::json::{lemma_put, models, Json, JsonModel};
use crate::number::i64_of;
use crate::text::{owned, same};

verus! {

/// Runs shown per source on the detail view.
pub const SOURCE_RUN_PREVIEW: i64 = 10;

/// Stored runs replayed per source when a request names no number.
pub const DEFAULT_REPLAY_RUNS: i64 = 60;

/// Most stored runs a preview replays per source.
pub const MAX_REPLAY_RUNS: i64 = 1000;

/// The refusal of a detector that is switched off.
pub const DETECTION_DISABLED: &'static str =
    "extraction-health detection is disabled ([resilience] enabled = false)";

/// The health store answers, or nothing does: an empty list would read as
/// "everything is fine".
pub fn health_store(enabled: bool) -> (r: Result<(), ApiError>)
    ensures
        r is Ok <==> enabled,
        r matches Err(e) ==> e@ == (503u16, DETECTION_DISABLED@),
{
    if enabled {
        Ok(())
    } else {
        Err(ApiError::fixed(SERVICE_UNAVAILABLE, DETECTION_DISABLED))
    }
}

/// How many rows a list of sources or runs may hold.
pub fn list_limit(limit: i64) -> (r: i64)
    ensures
        r == clamped(limit, 1, 500),
{
    clamp(limit, 1, 500)
}

/// How many stored runs a preview replays per source.
pub fn preview_runs(requested: Option<i64>) -> (r: i64)
    ensures
        r == clamped(
            match requested {
                Some(n) => n,
                None => 60,
            },
            1,
            1000,
        ),
{
    let n: i64 = match requested {
        Some(n) => n,
        None => DEFAULT_REPLAY_RUNS,
    };
    clamp(n, 1, MAX_REPLAY_RUNS)
}

/// How many sources a preview replays.
pub fn preview_sources(requested: Option<i64>) -> (r: i64)
    ensures
        r == clamped(
            match requested {
                Some(n) => n,
                None => 500,
            },
            1,
            500,
        ),
{
    let n: i64 = match requested {
        Some(n) => n,
        None => 500,
    };
    clamp(n, 1, 500)
}

/// Where a source stands.
#[derive(Debug, Clone, Copy, PartialEq, Eq, Structural)]
pub enum SourceState {
    Healthy,
    Suspect,
    Degraded,
    Quarantined,
    Probation,
    Retired,
}

impl SourceState {
    /// The state's name.
    pub open spec fn text(self) -> Seq<char> {
        match self {
            SourceState::Healthy => "healthy"@,
            SourceState::Suspect => "suspect"@,
            SourceState::Degraded => "degraded"@,
            SourceState::Quarantined => "quarantined"@,
            SourceState::Probation => "probation"@,
            SourceState::Retired => "retired"@,
        }
    }

    /// The state's name.
    pub fn as_str(&self) -> (r: &'static str)
        ensures
            r@ == self.text(),
    {
        match self {
            SourceState::Healthy => "healthy",
            SourceState::Suspect => "suspect",
            SourceState::Degraded => "degraded",
            SourceState::Quarantined => "quarantined",
            SourceState::Probation => "probation",
            SourceState::Retired => "retired",
        }
    }
}

/// Whether a text names a state.
pub open spec fn names_state(s: Seq<char>) -> bool {
    exists|state: SourceState| #[trigger] state.text() == s
}

/// The state a text names, read strictly: a typo must not reset a source.
pub fn read_state(s: &str) -> (r: Option<SourceState>)
    ensures
        match r {
            Some(state) => state.text() == s@,
            None => !names_state(s@),
        },
{
    if same(s, "healthy") {
        Some(SourceState::Healthy)
    } else if same(s, "suspect") {
        Some(SourceState::Suspect)
    } else if same(s, "degraded") {
        Some(SourceState::Degraded)
    } else if same(s, "quarantined") {
        Some(SourceState::Quarantined)
    } else if same(s, "probation") {
        Some(SourceState::Probation)
    } else if same(s, "retired") {
        Some(SourceState::Retired)
    } else {
        None
    }
}

/// Two states with one name are one state, so a name reads back to the state it
/// was written for.
pub proof fn law_state_names_are_distinct(a: SourceState, b: SourceState)
    requires
        a.text() == b.text(),
    ensures
        a == b,
{
    reveal_strlit("healthy");
    reveal_strlit("suspect");
    reveal_strlit("degraded");
    reveal_strlit("quarantined");
    reveal_strlit("probation");
    reveal_strlit("retired");
    assert("healthy"@[0] == 'h' && "suspect"@[0] == 's' && "retired"@[0] == 'r');
    assert("healthy"@.len() == 7 && "suspect"@.len() == 7 && "retired"@.len() == 7);
    assert("degraded"@.len() == 8 && "quarantined"@.len() == 11 && "probation"@.len() == 9);
}

/// A state goes by its name in lower case, and no other text names one.
pub proof fn law_states_go_by_their_names(s: Seq<char>)
    ensures
        SourceState::Healthy.text() == "healthy"@,
        SourceState::Suspect.text() == "suspect"@,
        SourceState::Degraded.text() == "degraded"@,
        SourceState::Quarantined.text() == "quarantined"@,
        SourceState::Probation.text() == "probation"@,
        SourceState::Retired.text() == "retired"@,
        names_state(s) <==> s == "healthy"@ || s == "suspect"@ || s == "degraded"@ || s
            == "quarantined"@ || s == "probation"@ || s == "retired"@,
{
    assert(SourceState::Healthy.text() == "healthy"@);
    assert(SourceState::Suspect.text() == "suspect"@);
    assert(SourceState::Degraded.text() == "degraded"@);
    assert(SourceState::Quarantined.text() == "quarantined"@);
    assert(SourceState::Probation.text() == "probation"@);
    assert(SourceState::Retired.text() == "retired"@);
}

/// Why a state was refused.
pub open spec fn unknown_state_message(s: Seq<char>) -> Seq<char> {
    "unknown state '"@ + s
        + "' — expected one of healthy|suspect|degraded|quarantined|probation|retired"@
}

/// What an override writes: the state, and why.
#[derive(Debug, PartialEq)]
pub struct StateOverride {
    pub state: SourceState,
    pub reason: String,
}

/// Reads an operator's override. An override without a reason says that it was
/// made by hand.
pub fn set_source_state(state: &str, reason: &Option<String>) -> (r: Result<
    StateOverride,
    ApiError,
>)
    ensures
        r is Ok <==> names_state(state@),
        r matches Ok(o) ==> o.state.text() == state@ && o.reason@ == match *reason {
            Some(text) => text@,
            None => "manual override"@,
        },
        r matches Err(e) ==> e@ == (400u16, unknown_state_message(state@)),
{
    match read_state(state) {
        Some(s) => {
            assert(s.text() == state@);
            let why = match reason {
                Some(text) => owned(text.as_str()),
                None => owned("manual override"),
            };
            Ok(StateOverride { state: s, reason: why })
        },
        None => {
            let mut m = owned("unknown state '");
            m.append(state);
            m.append(
                "' — expected one of healthy|suspect|degraded|quarantined|probation|retired",
            );
            Err(ApiError::new(BAD_REQUEST, m))
        },
    }
}

/// The answer to an override, given whether the store knows the source.
pub fn override_answer(id: &str, made: &StateOverride, found: bool) -> (r: Result<Json, ApiError>)
    ensures
        if found {
            r matches Ok(j) && j@ == JsonModel::object().put("id"@, JsonModel::Text(id@)).put(
                "state"@,
                JsonModel::Text(made.state.text()),
            ).put("reason"@, JsonModel::Text(made.reason@))
        } else {
            r matches Err(e) && e@ == (404u16, "unknown source '"@ + id@ + "'"@)
        },
{
    if !found {
        return Err(unknown_source(id));
    }
    let mut out = Json::object();
    out.set("id", Json::text(id));
    out.set("state", Json::text(made.state.as_str()));
    out.set("reason", Json::text(made.reason.as_str()));
    Ok(out)
}

/// The refusal of a source nobody has heard of.
pub fn unknown_source(id: &str) -> (r: ApiError)
    ensures
        r@ == (404u16, "unknown source '"@ + id@ + "'"@),
{
    let mut m = owned("unknown source '");
    m.append(id);
    m.append("'");
    ApiError::new(NOT_FOUND, m)
}

/// What the catalog says of the source a verdict belongs to.
#[derive(Debug, Clone, Copy, PartialEq, Eq, Structural)]
pub enum SourceWindow {
    /// The catalog would not load, so nothing about a verdict can be judged.
    CatalogUnreadable,
    /// No live catalog source declares this id any more.
    NotLive,
    /// Live, with a freshness expectation in seconds.
    Secs(i64),
    /// Live, without a freshness expectation: unjudgeable, which is not fresh.
    NoExpectation,
}

impl SourceWindow {
    /// The window of a source known to be live.
    pub fn of_live(freshness_window_secs: Option<i64>) -> (r: SourceWindow)
        ensures
            r == match freshness_window_secs {
                Some(secs) => SourceWindow::Secs(secs),
                None => SourceWindow::NoExpectation,
            },
    {
        match freshness_window_secs {
            Some(secs) => SourceWindow::Secs(secs),
            None => SourceWindow::NoExpectation,
        }
    }
}

/// The age of a verdict and whether it is out of date, with the reason when that
/// cannot be said.
#[derive(Debug, Clone, Copy, PartialEq, Eq)]
pub struct VerdictFreshness {
    pub age_secs: Option<i64>,
    /// `None` means that it cannot be judged, and never passes for `false`.
    pub stale: Option<bool>,
    pub reason: Option<&'static str>,
}

/// A verdict without a stamp that reads.
pub const NO_STAMP: &'static str = "verdict carries no parsable checked_at";

/// A verdict whose source is gone.
pub const NOT_LIVE: &'static str =
    "no live catalog source declares this contract (retired or removed)";

/// A verdict beside a catalog that would not load.
pub const CATALOG_UNREADABLE: &'static str =
    "catalog unreadable: verdict freshness cannot be judged";

/// A verdict of a source that promises no freshness.
pub const NO_EXPECTATION: &'static str =
    "source declares no freshness expectation (cadence and contract are both silent)";

/// The freshness of a verdict that was recorded `age` seconds ago, if its stamp
/// could be read at all. That a source is gone outranks the age.
pub open spec fn freshness_of(age: Option<int>, window: SourceWindow) -> (
    Option<int>,
    Option<bool>,
    Option<Seq<char>>,
) {
    match age {
        None => (None, None, Some(NO_STAMP@)),
        Some(secs) => match window {
            SourceWindow::NotLive => (Some(secs), Some(true), Some(NOT_LIVE@)),
            SourceWindow::CatalogUnreadable => (Some(secs), None, Some(CATALOG_UNREADABLE@)),
            SourceWindow::NoExpectation => (Some(secs), None, Some(NO_EXPECTATION@)),
            SourceWindow::Secs(w) => (Some(secs), Some(secs > w), None),
        },
    }
}

impl View for VerdictFreshness {
    type V = (Option<int>, Option<bool>, Option<Seq<char>>);

    open spec fn view(&self) -> (Option<int>, Option<bool>, Option<Seq<char>>) {
        (
            match self.age_secs {
                Some(n) => Some(n as int),
                None => None,
            },
            self.stale,
            match self.reason {
                Some(t) => Some(t@),
                None => None,
            },
        )
    }
}

/// Ages a verdict whose stamp has been read.
pub fn freshness_at(stamp: Option<Instant>, window: SourceWindow, now: Instant) -> (r:
    VerdictFreshness)
    ensures
        r@ == freshness_of(
            match stamp {
                Some(t) => Some(age_of(now@, t@)),
                None => None,
            },
            window,
        ),
{
    let age: i64 = match stamp {
        Some(t) => age_seconds(now, t),
        None => {
            return VerdictFreshness { age_secs: None, stale: None, reason: Some(NO_STAMP) };
        },
    };
    match window {
        SourceWindow::NotLive => VerdictFreshness {
            age_secs: Some(age),
            stale: Some(true),
            reason: Some(NOT_LIVE),
        },
        SourceWindow::CatalogUnreadable => VerdictFreshness {
            age_secs: Some(age),
            stale: None,
            reason: Some(CATALOG_UNREADABLE),
        },
        SourceWindow::NoExpectation => VerdictFreshness {
            age_secs: Some(age),
            stale: None,
            reason: Some(NO_EXPECTATION),
        },
        SourceWindow::Secs(w) => VerdictFreshness {
            age_secs: Some(age),
            stale: Some(age > w),
            reason: None,
        },
    }
}

/// The age a stamp gives, if it reads.
pub open spec fn stamp_age(checked_at: Option<Seq<char>>, now: (i64, u32)) -> Option<int> {
    match checked_at {
        Some(text) => match rfc3339_reading(text) {
            Ok(t) => Some(age_of(now, t)),
            Err(_) => None,
        },
        None => None,
    }
}

/// Ages a recorded verdict against its source's freshness window, by the stamp it
/// carries.
pub fn verdict_freshness(checked_at: Option<&str>, window: SourceWindow, now: Instant) -> (r:
    VerdictFreshness)
    ensures
        r@ == freshness_of(
            stamp_age(
                match checked_at {
                    Some(text) => Some(text@),
                    None => None,
                },
                now@,
            ),
            window,
        ),
{
    let stamp = match checked_at {
        Some(text) => match read_rfc3339(text) {
            Ok(t) => Some(t),
            Err(_) => None,
        },
        None => None,
    };
    freshness_at(stamp, window, now)
}

/// A verdict that cannot be judged is never called fresh: it has no verdict on
/// staleness and says why, and only a window in seconds calls anything fresh.
pub proof fn law_unjudgeable_is_never_fresh(age: Option<int>, window: SourceWindow)
    ensures
        ({
            let f = freshness_of(age, window);
            &&& f.1 is None ==> f.2 is Some
            &&& f.1 == Some(false) ==> window is Secs && age is Some && age->0 <= window->Secs_0
            &&& window is NotLive && age is Some ==> f.1 == Some(true)
        }),
{
}

/// A verdict counts as stale exactly where it can be dated and either no live
/// source declares its contract or it is older than the source's window; as fresh
/// exactly where it is no older than the window. Otherwise it is neither, and only
/// a verdict judged by a window goes without a reason.
pub proof fn law_a_verdict_is_stale_past_its_window(age: Option<int>, window: SourceWindow)
    ensures
        freshness_of(age, window).0 == age,
        freshness_of(age, window).1 == Some(true) <==> (age matches Some(secs) && (window is NotLive
            || (window matches SourceWindow::Secs(w) && secs > w))),
        freshness_of(age, window).1 == Some(false) <==> (age matches Some(secs)
            && (window matches SourceWindow::Secs(w) && secs <= w)),
        freshness_of(age, window).2 is None <==> age is Some && window is Secs,
        age is None ==> freshness_of(age, window).2 == Some(NO_STAMP@),
        age is Some && window is NotLive ==> freshness_of(age, window).2 == Some(NOT_LIVE@),
        age is Some && window is CatalogUnreadable ==> freshness_of(age, window).2 == Some(
            CATALOG_UNREADABLE@,
        ),
        age is Some && window is NoExpectation ==> freshness_of(age, window).2 == Some(
            NO_EXPECTATION@,
        ),
{
}

/// A verdict as it is shown: with its age, whether it is stale, and the reason
/// where there is one. What is no object is shown as it is.
pub open spec fn aged(verdict: JsonModel, window: SourceWindow, now: (i64, u32)) -> JsonModel {
    if verdict is Object {
        let f = freshness_of(stamp_age(verdict.text_at("checked_at"@), now), window);
        let dated = verdict.put("age_secs"@, JsonModel::int_or_null(f.0)).put(
            "stale"@,
            match f.1 {
                Some(b) => JsonModel::Bool(b),
                None => JsonModel::Null,
            },
        );
        match f.2 {
            Some(reason) => dated.put("stale_reason"@, JsonModel::Text(reason)),
            None => dated,
        }
    } else {
        verdict
    }
}

/// Aging a verdict sets its age and whether it is stale, and a reason where there
/// is one; every other member stays as it was, and what is no object stays whole.
pub proof fn law_aging_keeps_the_verdict(
    verdict: JsonModel,
    window: SourceWindow,
    now: (i64, u32),
    field: Seq<char>,
)
    ensures
        !(verdict is Object) ==> aged(verdict, window, now) == verdict,
        field != "age_secs"@ && field != "stale"@ && field != "stale_reason"@ ==> aged(
            verdict,
            window,
            now,
        ).get(field) == verdict.get(field),
        verdict is Object ==> {
            let age = match verdict.text_at("checked_at"@) {
                Some(text) => match rfc3339_reading(text) {
                    Ok(t) => Some(age_of(now, t)),
                    Err(_) => None,
                },
                None => None,
            };
            let f = freshness_of(age, window);
            &&& aged(verdict, window, now).get("age_secs"@) == Some(JsonModel::int_or_null(age))
            &&& f.1 matches Some(b) ==> aged(verdict, window, now).get("stale"@) == Some(
                JsonModel::Bool(b),
            )
            &&& f.1 is None ==> aged(verdict, window, now).get("stale"@) == Some(JsonModel::Null)
            &&& f.2 matches Some(why) ==> aged(verdict, window, now).get("stale_reason"@) == Some(
                JsonModel::Text(why),
            )
        },
{
    reveal_strlit("age_secs");
    reveal_strlit("stale");
    reveal_strlit("stale_reason");
    if verdict is Object {
        let f = freshness_of(stamp_age(verdict.text_at("checked_at"@), now), window);
        let age = JsonModel::int_or_null(f.0);
        let stale = match f.1 {
            Some(b) => JsonModel::Bool(b),
            None => JsonModel::Null,
        };
        let dated = verdict.put("age_secs"@, age);
        lemma_put(verdict, "age_secs"@, age);
        lemma_put(dated, "stale"@, stale);
        if let Some(why) = f.2 {
            lemma_put(dated.put("stale"@, stale), "stale_reason"@, JsonModel::Text(why));
        }
    }
}

/// Renders a stored verdict with its own age attached.
pub fn verdict_with_age(verdict: Json, window: SourceWindow, now: Instant) -> (r: Json)
    ensures
        r@ == aged(verdict@, window, now@),
{
    let is_object = match &verdict {
        Json::Object(_) => true,
        _ => false,
    };
    assert(is_object == (verdict@ is Object));
    if !is_object {
        return verdict;
    }
    let fresh = verdict_freshness(verdict.text_at("checked_at"), window, now);
    let mut out = verdict;
    out.set("age_secs", Json::optional_int(fresh.age_secs));
    out.set(
        "stale",
        match fresh.stale {
            Some(b) => Json::Bool(b),
            None => Json::Null,
        },
    );
    if let Some(reason) = fresh.reason {
        out.set("stale_reason", Json::text(reason));
    }
    out
}

/// A live catalog source that declares a contract.
#[derive(Debug, PartialEq)]
pub struct ContractedSource {
    pub app: String,
    pub dataset: String,
    pub freshness_window_secs: Option<i64>,
}

/// The windows of all contracted sources, by source id, each listed once.
#[derive(Debug, PartialEq)]
pub struct VerdictWindows {
    pub by_id: Vec<(String, SourceWindow)>,
}

/// The id of a source.
pub open spec fn source_id(app: Seq<char>, dataset: Seq<char>) -> Seq<char> {
    app + "/"@ + dataset
}

/// The window the catalog gives a source id; of two entries for one id the later
/// counts.
pub open spec fn catalog_window(sources: Seq<ContractedSource>, id: Seq<char>) -> SourceWindow
    decreases sources.len(),
{
    if sources.len() == 0 {
        SourceWindow::NotLive
    } else {
        let s = sources.last();
        if source_id(s.app@, s.dataset@) == id {
            match s.freshness_window_secs {
                Some(secs) => SourceWindow::Secs(secs),
                None => SourceWindow::NoExpectation,
            }
        } else {
            catalog_window(sources.drop_last(), id)
        }
    }
}

/// A source's window is the one its last declaration in the catalog gives, and a
/// source that the catalog does not declare is not live.
pub proof fn law_the_last_declaration_gives_the_window(
    sources: Seq<ContractedSource>,
    id: Seq<char>,
)
    ensures
        catalog_window(sources, id) is NotLive <==> forall|i: int|
            0 <= i < sources.len() ==> (#[trigger] sources[i]).app@ + "/"@ + sources[i].dataset@ != id,
        forall|i: int|
            {
                &&& 0 <= i < sources.len()
                &&& (#[trigger] sources[i]).app@ + "/"@ + sources[i].dataset@ == id
                &&& forall|j: int|
                    i < j < sources.len() ==> (#[trigger] sources[j]).app@ + "/"@
                        + sources[j].dataset@ != id
            } ==> catalog_window(sources, id) == match sources[i].freshness_window_secs {
                Some(secs) => SourceWindow::Secs(secs),
                None => SourceWindow::NoExpectation,
            },
    decreases sources.len(),
{
    if sources.len() > 0 {
        let rest = sources.drop_last();
        law_the_last_declaration_gives_the_window(rest, id);
        assert(forall|i: int| 0 <= i < rest.len() ==> #[trigger] sources[i] == rest[i]);
        assert(sources[sources.len() - 1] == sources.last());
    }
}

/// The last window listed for an id.
pub open spec fn listed_window(by_id: Seq<(String, SourceWindow)>, id: Seq<char>) -> SourceWindow
    decreases by_id.len(),
{
    if by_id.len() == 0 {
        SourceWindow::NotLive
    } else if by_id.last().0@ == id {
        by_id.last().1
    } else {
        listed_window(by_id.drop_last(), id)
    }
}

/// Whether no id is listed twice.
pub open spec fn distinct_ids(by_id: Seq<(String, SourceWindow)>) -> bool {
    forall|i: int, j: int|
        0 <= i < j < by_id.len() ==> (#[trigger] by_id[i]).0@ != (#[trigger] by_id[j]).0@
}

proof fn lemma_listed_at(by_id: Seq<(String, SourceWindow)>, i: int)
    requires
        0 <= i < by_id.len(),
        distinct_ids(by_id),
    ensures
        listed_window(by_id, by_id[i].0@) == by_id[i].1,
    decreases by_id.len(),
{
    if i < by_id.len() - 1 {
        assert(by_id[i].0@ != by_id[by_id.len() - 1].0@);
        assert(distinct_ids(by_id.drop_last()));
        lemma_listed_at(by_id.drop_last(), i);
    }
}

proof fn lemma_listed_elsewhere(
    by_id: Seq<(String, SourceWindow)>,
    i: int,
    w: (String, SourceWindow),
    id: Seq<char>,
)
    requires
        0 <= i < by_id.len(),
        by_id[i].0@ == w.0@,
        w.0@ != id,
    ensures
        listed_window(by_id.update(i, w), id) == listed_window(by_id, id),
    decreases by_id.len(),
{
    let changed = by_id.update(i, w);
    if i < by_id.len() - 1 {
        assert(changed.drop_last() =~= by_id.drop_last().update(i, w));
        lemma_listed_elsewhere(by_id.drop_last(), i, w, id);
    } else {
        assert(changed.drop_last() =~= by_id.drop_last());
    }
}

/// Lists a window under an id, in place of the one that stood there.
fn list_window(by_id: &mut Vec<(String, SourceWindow)>, id: String, window: SourceWindow)
    requires
        distinct_ids(old(by_id)@),
    ensures
        distinct_ids(final(by_id)@),
        forall|other: Seq<char>| #[trigger]
            listed_window(final(by_id)@, other) == if other == id@ {
                window
            } else {
                listed_window(old(by_id)@, other)
            },
{
    let ghost had = by_id@;
    let mut i: usize = 0;
    while i < by_id.len() && !same(by_id[i].0.as_str(), id.as_str())
        invariant
            i <= by_id@.len(),
            by_id@ == had,
            forall|k: int| 0 <= k < i ==> (#[trigger] by_id@[k]).0@ != id@,
        decreases by_id@.len() - i,
    {
        i += 1;
    }
    let ghost entry = (id, window);
    if i < by_id.len() {
        by_id.set(i, (id, window));
        proof {
            assert forall|a: int, b: int| 0 <= a < b < by_id@.len() implies (
            #[trigger] by_id@[a]).0@ != (#[trigger] by_id@[b]).0@ by {
                assert(had[a].0@ != had[b].0@);
            }
            lemma_listed_at(by_id@, i as int);
            assert forall|other: Seq<char>| other != entry.0@ implies #[trigger] listed_window(
                by_id@,
                other,
            ) == listed_window(had, other) by {
                lemma_listed_elsewhere(had, i as int, entry, other);
            }
        }
    } else {
        by_id.push((id, window));
        proof {
            assert(by_id@.drop_last() =~= had);
            assert forall|a: int, b: int| 0 <= a < b < by_id@.len() implies (
            #[trigger] by_id@[a]).0@ != (#[trigger] by_id@[b]).0@ by {
                if b < had.len() {
                    assert(had[a].0@ != had[b].0@);
                } else {
                    assert(had[a].0@ != entry.0@);
                }
            }
        }
    }
}

/// The windows of the catalog's contracted sources; none when the catalog would
/// not load.
pub fn verdict_windows(catalog: Option<&[ContractedSource]>) -> (r: Option<VerdictWindows>)
    ensures
        r is Some <==> catalog is Some,
        r matches Some(w) ==> distinct_ids(w.by_id@) && forall|id: Seq<char>| #[trigger]
            listed_window(w.by_id@, id) == catalog_window(catalog->0@, id),
{
    let sources = match catalog {
        Some(sources) => sources,
        None => {
            return None;
        },
    };
    let mut by_id: Vec<(String, SourceWindow)> = Vec::new();
    let mut i: usize = 0;
    while i < sources.len()
        invariant
            i <= sources@.len(),
            distinct_ids(by_id@),
            forall|id: Seq<char>| #[trigger]
                listed_window(by_id@, id) == catalog_window(sources@.take(i as int), id),
        decreases sources@.len() - i,
    {
        let ghost had = by_id@;
        let s = &sources[i];
        let mut id = owned(s.app.as_str());
        id.append("/");
        id.append(s.dataset.as_str());
        list_window(&mut by_id, id, SourceWindow::of_live(s.freshness_window_secs));
        proof {
            assert(sources@.take(i + 1).drop_last() =~= sources@.take(i as int));
            assert(sources@.take(i + 1).last() == sources@[i as int]);
            assert forall|other: Seq<char>| #[trigger]
                listed_window(by_id@, other) == catalog_window(sources@.take(i + 1), other) by {
                assert(listed_window(had, other) == catalog_window(sources@.take(i as int), other));
            }
        }
        i += 1;
    }
    assert(sources@.take(sources@.len() as int) =~= sources@);
    Some(VerdictWindows { by_id })
}

/// The window of one source: an unreadable catalog makes it unjudgeable, and one
/// that does not list the source says that it is not live.
pub fn window_for(windows: Option<&VerdictWindows>, id: &str) -> (r: SourceWindow)
    ensures
        r == match windows {
            None => SourceWindow::CatalogUnreadable,
            Some(w) => listed_window(w.by_id@, id@),
        },
{
    let w = match windows {
        None => {
            return SourceWindow::CatalogUnreadable;
        },
        Some(w) => w,
    };
    let mut i: usize = w.by_id.len();
    assert(w.by_id@.take(i as int) =~= w.by_id@);
    while i > 0
        invariant
            i <= w.by_id@.len(),
            windows == Some(w),
            listed_window(w.by_id@, id@) == listed_window(w.by_id@.take(i as int), id@),
        decreases i,
    {
        i -= 1;
        assert(w.by_id@.take(i + 1).drop_last() =~= w.by_id@.take(i as int));
        if same(w.by_id[i].0.as_str(), id) {
            return w.by_id[i].1;
        }
    }
    SourceWindow::NotLive
}

/// A source as the table shows it.
#[derive(Debug, PartialEq)]
pub struct SourceRow {
    pub id: String,
    pub monitored: bool,
    pub row: Json,
    /// The latest contract verdict, where one was recorded.
    pub verdict: Option<Json>,
}

/// A row of the table: the source, with its verdict where it has one.
pub open spec fn shown_source(
    s: SourceRow,
    windows: Option<VerdictWindows>,
    now: (i64, u32),
) -> JsonModel {
    match s.verdict {
        None => s.row@,
        Some(v) => s.row@.put(
            "contract"@,
            aged(
                v@,
                match windows {
                    None => SourceWindow::CatalogUnreadable,
                    Some(w) => listed_window(w.by_id@, s.id@),
                },
                now,
            ),
        ),
    }
}

/// A source is shown as it is stored, and with its verdict where it has one, aged by
/// the window its own id is listed under.
pub proof fn law_a_source_is_shown_with_its_own_verdict(
    s: SourceRow,
    windows: Option<VerdictWindows>,
    now: (i64, u32),
    field: Seq<char>,
)
    requires
        s.row@ is Object,
    ensures
        s.verdict is None ==> shown_source(s, windows, now) == s.row@,
        field != "contract"@ ==> shown_source(s, windows, now).get(field) == s.row@.get(field),
        s.verdict matches Some(v) ==> {
            &&& windows is None ==> shown_source(s, windows, now).get("contract"@) == Some(
                aged(v@, SourceWindow::CatalogUnreadable, now),
            )
            &&& windows matches Some(w) ==> forall|i: int|
                0 <= i < w.by_id@.len() && (#[trigger] w.by_id@[i]).0@ == s.id@ && distinct_ids(
                    w.by_id@,
                ) ==> shown_source(s, windows, now).get("contract"@) == Some(
                    aged(v@, w.by_id@[i].1, now),
                )
        },
{
    if let Some(v) = s.verdict {
        match windows {
            None => {
                lemma_put(s.row@, "contract"@, aged(v@, SourceWindow::CatalogUnreadable, now));
            },
            Some(w) => {
                lemma_put(s.row@, "contract"@, aged(v@, listed_window(w.by_id@, s.id@), now));
                assert forall|i: int|
                    0 <= i < w.by_id@.len() && (#[trigger] w.by_id@[i]).0@ == s.id@ && distinct_ids(
                        w.by_id@,
                    ) implies listed_window(w.by_id@, s.id@) == w.by_id@[i].1 by {
                    lemma_listed_at(w.by_id@, i);
                }
            },
        }
    }
}

/// How many sources are not being watched.
pub open spec fn unwatched(sources: Seq<SourceRow>) -> nat
    decreases sources.len(),
{
    if sources.len() == 0 {
        0
    } else {
        unwatched(sources.drop_last()) + if sources.last().monitored {
            0nat
        } else {
            1nat
        }
    }
}

/// The unmonitored sources are those that are not monitored, counted one by one.
pub proof fn law_unmonitored_sources_are_counted(sources: Seq<SourceRow>)
    ensures
        unwatched(sources) == sources.filter(|s: SourceRow| !s.monitored).len(),
        unwatched(sources) <= sources.len(),
    decreases sources.len(),
{
    reveal(Seq::filter);
    if sources.len() > 0 {
        law_unmonitored_sources_are_counted(sources.drop_last());
    }
}

/// The extraction-health table.
pub fn list_sources(
    sources: &[SourceRow],
    windows: Option<&VerdictWindows>,
    enforcing: bool,
    contracts_enforce: bool,
    contracts: &Json,
    now: Instant,
) -> (r: Json)
    ensures
        ({
            let held = match windows {
                Some(w) => Some(*w),
                None => None,
            };
            r@ == JsonModel::object().put("enabled"@, JsonModel::Bool(true)).put(
                "enforcing"@,
                JsonModel::Bool(enforcing),
            ).put("contracts_enforce"@, JsonModel::Bool(contracts_enforce)).put(
                "contracts"@,
                contracts@,
            ).put("count"@, JsonModel::integer(sources@.len() as int)).put(
                "unmonitored"@,
                JsonModel::integer(unwatched(sources@) as int),
            ).put(
                "sources"@,
                JsonModel::Array(
                    Seq::new(sources@.len(), |i: int| shown_source(sources@[i], held, now@)),
                ),
            )
        }),
{
    let ghost held = match windows {
        Some(w) => Some(*w),
        None => None,
    };
    let mut rows: Vec<Json> = Vec::new();
    let mut unmonitored: u64 = 0;
    let mut i: usize = 0;
    while i < sources.len()
        invariant
            i <= sources@.len(),
            rows@.len() == i,
            unmonitored <= i,
            unmonitored == unwatched(sources@.take(i as int)),
            held == match windows {
                Some(w) => Some(*w),
                None => None,
            },
            forall|k: int|
                0 <= k < i ==> (#[trigger] rows@[k])@ == shown_source(sources@[k], held, now@),
        decreases sources@.len() - i,
    {
        assert(sources@.take(i + 1).drop_last() =~= sources@.take(i as int));
        let s = &sources[i];
        if !s.monitored {
            unmonitored += 1;
        }
        let mut row = s.row.copy();
        if let Some(v) = &s.verdict {
            let window = window_for(windows, s.id.as_str());
            row.set("contract", verdict_with_age(v.copy(), window, now));
        }
        rows.push(row);
        i += 1;
    }
    assert(sources@.take(sources@.len() as int) =~= sources@);
    assert(models(rows@) =~= Seq::new(
        sources@.len(),
        |k: int| shown_source(sources@[k], held, now@),
    ));
    let mut out = Json::object();
    out.set("enabled", Json::Bool(true));
    out.set("enforcing", Json::Bool(enforcing));
    out.set("contracts_enforce", Json::Bool(contracts_enforce));
    out.set("contracts", contracts.copy());
    out.set("count", Json::unsigned(sources.len() as u64));
    out.set("unmonitored", Json::unsigned(unmonitored));
    out.set("sources", Json::array(rows));
    out
}

/// Whether the latest run was large enough for the statistical tests; a source
/// without runs has no coverage.
pub fn statistical_coverage(latest_docs: Option<i64>, min_cohort_docs: i64) -> (r: bool)
    ensures
        r == (latest_docs matches Some(n) && n >= min_cohort_docs),
{
    match latest_docs {
        Some(n) => n >= min_cohort_docs,
        None => false,
    }
}

/// How many documents a run saw.
pub open spec fn docs_of(run: JsonModel) -> Option<i64> {
    match run.get("docs"@) {
        Some(docs) => docs.as_i64(),
        None => None,
    }
}

fn run_docs(run: &Json) -> (r: Option<i64>)
    ensures
        r == docs_of(run@),
{
    match run.get("docs") {
        Some(docs) => docs.as_i64(),
        None => None,
    }
}

/// Whether the latest of the runs, newest first, cleared the cohort floor.
pub open spec fn covered(runs: Seq<JsonModel>, min_cohort_docs: i64) -> bool {
    runs.len() > 0 && (docs_of(runs[0]) matches Some(n) && n >= min_cohort_docs)
}

/// A source is statistically covered exactly where its newest run says how many
/// documents it saw and they are enough.
pub proof fn law_coverage_is_judged_by_the_newest_run(runs: Seq<JsonModel>, min_cohort_docs: i64)
    ensures
        covered(runs, min_cohort_docs) <==> runs.len() > 0 && (runs[0].get("docs"@) matches Some(d)
            && (d matches JsonModel::Number(t) && (i64_of(t) matches Some(n) && n
            >= min_cohort_docs))),
{
}

/// One field of the latest run beside its baseline. The rates are decimal numbers
/// that were computed with the sketches.
#[derive(Debug, PartialEq)]
pub struct FieldSketch {
    pub field: String,
    pub docs: u64,
    pub miss_rate: Json,
    pub coercion_failure_rate: Json,
    pub distinct_ratio: Json,
    pub mean_len: Json,
    pub baseline_runs: u64,
    /// Documents behind the baseline's miss rate.
    pub baseline_docs: u64,
    pub baseline_miss_rate: Json,
    pub baseline_distinct_ratio: Json,
}

impl FieldSketch {
    /// The field as the detail view shows it. A baseline without documents has no
    /// miss rate: null, not zero.
    pub open spec fn shown(self) -> JsonModel {
        JsonModel::object().put("field"@, JsonModel::Text(self.field@)).put(
            "docs"@,
            JsonModel::integer(self.docs as int),
        ).put("miss_rate"@, self.miss_rate@).put(
            "coercion_failure_rate"@,
            self.coercion_failure_rate@,
        ).put("distinct_ratio"@, self.distinct_ratio@).put("mean_len"@, self.mean_len@).put(
            "baseline_runs"@,
            JsonModel::integer(self.baseline_runs as int),
        ).put(
            "baseline_miss_rate"@,
            if self.baseline_docs == 0 {
                JsonModel::Null
            } else {
                self.baseline_miss_rate@
            },
        ).put("baseline_distinct_ratio"@, self.baseline_distinct_ratio@)
    }
}

/// Each member of a field's row holds the rate it is named after; a baseline of no
/// documents has no miss rate.
pub proof fn law_a_field_row_names_what_it_shows(f: FieldSketch)
    ensures
        ({
            let shown = f.shown();
            &&& shown.get("field"@) == Some(JsonModel::Text(f.field@))
            &&& shown.get("docs"@) == Some(JsonModel::integer(f.docs as int))
            &&& shown.get("miss_rate"@) == Some(f.miss_rate@)
            &&& shown.get("coercion_failure_rate"@) == Some(f.coercion_failure_rate@)
            &&& shown.get("distinct_ratio"@) == Some(f.distinct_ratio@)
            &&& shown.get("mean_len"@) == Some(f.mean_len@)
            &&& shown.get("baseline_runs"@) == Some(JsonModel::integer(f.baseline_runs as int))
            &&& shown.get("baseline_miss_rate"@) == Some(
                if f.baseline_docs == 0 { JsonModel::Null } else { f.baseline_miss_rate@ },
            )
            &&& shown.get("baseline_distinct_ratio"@) == Some(f.baseline_distinct_ratio@)
        }),
{
    reveal_strlit("field");
    reveal_strlit("docs");
    reveal_strlit("miss_rate");
    reveal_strlit("coercion_failure_rate");
    reveal_strlit("distinct_ratio");
    reveal_strlit("mean_len");
    reveal_strlit("baseline_runs");
    reveal_strlit("baseline_miss_rate");
    reveal_strlit("baseline_distinct_ratio");
    let m0 = JsonModel::object();
    let v1 = JsonModel::Text(f.field@);
    lemma_put(m0, "field"@, v1);
    let m1 = m0.put("field"@, v1);
    let v2 = JsonModel::integer(f.docs as int);
    lemma_put(m1, "docs"@, v2);
    let m2 = m1.put("docs"@, v2);
    let v3 = f.miss_rate@;
    lemma_put(m2, "miss_rate"@, v3);
    let m3 = m2.put("miss_rate"@, v3);
    let v4 = f.coercion_failure_rate@;
    lemma_put(m3, "coercion_failure_rate"@, v4);
    let m4 = m3.put("coercion_failure_rate"@, v4);
    let v5 = f.distinct_ratio@;
    lemma_put(m4, "distinct_ratio"@, v5);
    let m5 = m4.put("distinct_ratio"@, v5);
    let v6 = f.mean_len@;
    lemma_put(m5, "mean_len"@, v6);
    let m6 = m5.put("mean_len"@, v6);
    let v7 = JsonModel::integer(f.baseline_runs as int);
    lemma_put(m6, "baseline_runs"@, v7);
    let m7 = m6.put("baseline_runs"@, v7);
    let v8 = if f.baseline_docs == 0 { JsonModel::Null } else { f.baseline_miss_rate@ };
    lemma_put(m7, "baseline_miss_rate"@, v8);
    let m8 = m7.put("baseline_miss_rate"@, v8);
    let v9 = f.baseline_distinct_ratio@;
    lemma_put(m8, "baseline_distinct_ratio"@, v9);
}

fn field_json(f: &FieldSketch) -> (r: Json)
    ensures
        r@ == f.shown(),
{
    let mut out = Json::object();
    out.set("field", Json::text(f.field.as_str()));
    out.set("docs", Json::unsigned(f.docs));
    out.set("miss_rate", f.miss_rate.copy());
    out.set("coercion_failure_rate", f.coercion_failure_rate.copy());
    out.set("distinct_ratio", f.distinct_ratio.copy());
    out.set("mean_len", f.mean_len.copy());
    out.set("baseline_runs", Json::unsigned(f.baseline_runs));
    let rate = if f.baseline_docs == 0 {
        Json::Null
    } else {
        f.baseline_miss_rate.copy()
    };
    out.set("baseline_miss_rate", rate);
    out.set("baseline_distinct_ratio", f.baseline_distinct_ratio.copy());
    out
}

/// The detail view of a source, or the refusal of one nobody knows. A verdict
/// carries its age here as it does in the table.
pub fn get_source(
    id: &str,
    source: Option<Json>,
    verdict: Option<Json>,
    windows: Option<&VerdictWindows>,
    enforcing: bool,
    min_cohort_docs: i64,
    runs: Vec<Json>,
    fields: &[FieldSketch],
    invariants: Json,
    now: Instant,
) -> (r: Result<Json, ApiError>)
    ensures
        match source {
            None => r matches Err(e) && e@ == (404u16, "unknown source '"@ + id@ + "'"@),
            Some(s) => r matches Ok(body) && body@ == JsonModel::object().put("source"@, s@).put(
                "contract"@,
                match verdict {
                    None => JsonModel::Null,
                    Some(v) => aged(
                        v@,
                        match windows {
                            None => SourceWindow::CatalogUnreadable,
                            Some(w) => listed_window(w.by_id@, id@),
                        },
                        now@,
                    ),
                },
            ).put("enforcing"@, JsonModel::Bool(enforcing)).put(
                "statistical_coverage"@,
                JsonModel::Bool(covered(models(runs@), min_cohort_docs)),
            ).put("runs"@, JsonModel::Array(models(runs@))).put(
                "fields"@,
                JsonModel::Array(Seq::new(fields@.len(), |i: int| fields@[i].shown())),
            ).put("invariants"@, invariants@).put(
                "see_also"@,
                JsonModel::Text("/catalog/health — freshness (did it run?)"@),
            ),
        },
{
    let source = match source {
        Some(s) => s,
        None => {
            return Err(unknown_source(id));
        },
    };
    let contract = match verdict {
        Some(v) => verdict_with_age(v, window_for(windows, id), now),
        None => Json::Null,
    };
    let mut shown: Vec<Json> = Vec::new();
    let mut i: usize = 0;
    while i < fields.len()
        invariant
            i <= fields@.len(),
            shown@.len() == i,
            forall|k: int| 0 <= k < i ==> (#[trigger] shown@[k])@ == fields@[k].shown(),
        decreases fields@.len() - i,
    {
        shown.push(field_json(&fields[i]));
        i += 1;
    }
    assert(models(shown@) =~= Seq::new(fields@.len(), |k: int| fields@[k].shown()));
    let latest_docs: Option<i64> = if runs.len() == 0 {
        None
    } else {
        run_docs(&runs[0])
    };
    let covered = statistical_coverage(latest_docs, min_cohort_docs);
    let mut out = Json::object();
    out.set("source", source);
    out.set("contract", contract);
    out.set("enforcing", Json::Bool(enforcing));
    out.set("statistical_coverage", Json::Bool(covered));
    out.set("runs", Json::array(runs));
    out.set("fields", Json::array(shown));
    out.set("invariants", invariants);
    out.set("see_also", Json::text("/catalog/health — freshness (did it run?)"));
    Ok(out)
}

} // verus!
