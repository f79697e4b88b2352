//! Cron schedules: what may be stored.

use std::str::FromStr;

use vstd::prelude::*;

use crate::datasets::{clamp, clamped};
use crate::error::{ApiError, BAD_REQUEST, MAX_ATTEMPTS_CAP, NOT_FOUND};
use crate::json::Json;
use crate::text::{owned, same};

verus! {

/// What the cron crate makes of an expression: that it reads, or why not.
pub uninterp spec fn cron_reading(expression: Seq<char>) -> Result<(), Seq<char>>;

/// `cron::Schedule::from_str`, the schedule dropped and the error as its displayed
/// text. The result depends on the expression alone.
#[verifier::external_body]
fn read_cron(expression: &str) -> (r: Result<(), String>)
    ensures
        cron_view(r) == cron_reading(expression@),
{
    match cron::Schedule::from_str(expression) {
        Ok(_) => Ok(()),
        Err(e) => Err(e.to_string()),
    }
}

/// A reading with the reason taken by its view.
pub open spec fn cron_view(r: Result<(), String>) -> Result<(), Seq<char>> {
    match r {
        Ok(_) => Ok(()),
        Err(m) => Err(m@),
    }
}

/// Whether the time zone database lists a name.
pub uninterp spec fn is_timezone(name: Seq<char>) -> bool;

/// `chrono_tz::Tz::from_str`, which looks a name up in the database the crate was
/// built with. The result depends on the name alone.
#[verifier::external_body]
fn known_timezone(name: &str) -> (r: bool)
    ensures
        r == is_timezone(name@),
{
    chrono_tz::Tz::from_str(name).is_ok()
}

/// A request for a schedule.
#[derive(Debug, PartialEq)]
pub struct CreateScheduleBody {
    pub app: String,
    /// Six fields, seconds first.
    pub cron: String,
    pub params: Option<Json>,
    pub priority: Option<i64>,
    /// The zone the expression is evaluated in; UTC where there is none.
    pub timezone: Option<String>,
    /// What happens to firings missed while the scheduler was down.
    pub misfire_policy: Option<String>,
    pub max_attempts: Option<i64>,
}

/// A schedule that may be stored.
#[derive(Debug, PartialEq)]
pub struct NewSchedule {
    pub app: String,
    pub cron: String,
    pub params: Json,
    pub priority: i64,
    pub timezone: Option<String>,
    pub misfire_policy: String,
    pub max_attempts: Option<i64>,
}

/// The misfire policy of a request.
pub open spec fn policy_of(body: CreateScheduleBody) -> Seq<char> {
    match body.misfire_policy {
        Some(p) => p@,
        None => "fire_once"@,
    }
}

/// Whether a misfire policy is known.
pub open spec fn is_policy(p: Seq<char>) -> bool {
    p == "fire_once"@ || p == "skip"@
}

/// The refusal of a request, given what its expression and its time zone turned
/// out to be.
pub open spec fn schedule_refusal(
    body: CreateScheduleBody,
    app_known: bool,
    cron: Result<(), Seq<char>>,
    timezone_known: bool,
) -> Option<(u16, Seq<char>)> {
    if !app_known {
        Some((404u16, "unknown app '"@ + body.app@ + "'"@))
    } else if cron is Err {
        Some((400u16, "invalid cron: "@ + cron->Err_0))
    } else if body.timezone is Some && !timezone_known {
        Some((400u16, "unknown timezone '"@ + body.timezone->0@ + "'"@))
    } else if !is_policy(policy_of(body)) {
        Some(
            (
                400u16,
                "unknown misfire_policy '"@ + policy_of(body)
                    + "' (expected 'fire_once' or 'skip')"@,
            ),
        )
    } else {
        None
    }
}

/// Whether a schedule is what a request asks for.
pub open spec fn is_asked_for(s: NewSchedule, body: CreateScheduleBody) -> bool {
    &&& s.app == body.app
    &&& s.cron == body.cron
    &&& match body.params {
        Some(p) => s.params == p,
        None => s.params == Json::Null,
    }
    &&& s.priority == match body.priority {
        Some(n) => n,
        None => 0,
    }
    &&& s.timezone == body.timezone
    &&& s.misfire_policy@ == policy_of(body)
    &&& s.max_attempts == match body.max_attempts {
        Some(n) => Some(clamped(n, 1, 20)),
        None => None,
    }
}

/// A schedule is made exactly where its app is known, its expression reads, its
/// timezone is known where it names one, and its misfire policy is to fire once or to
/// skip; a schedule that names none fires once.
pub proof fn law_a_schedule_is_made_where_all_of_it_reads(
    body: CreateScheduleBody,
    app_known: bool,
    cron: Result<(), Seq<char>>,
    timezone_known: bool,
)
    ensures
        schedule_refusal(body, app_known, cron, timezone_known) is None <==> {
            &&& app_known
            &&& cron is Ok
            &&& body.timezone is None || timezone_known
            &&& body.misfire_policy matches Some(p) ==> p@ == "fire_once"@ || p@ == "skip"@
        },
        schedule_refusal(body, app_known, cron, timezone_known) matches Some((status, _))
            ==> status == if !app_known {
            404u16
        } else {
            400u16
        },
        body.misfire_policy is None ==> policy_of(body) == "fire_once"@,
        body.misfire_policy matches Some(p) ==> policy_of(body) == p@,
{
}

/// A schedule holds what its request asked for: where it named attempts, as many as
/// it named, at least one and at most twenty.
pub proof fn law_a_schedule_holds_what_was_asked_for(s: NewSchedule, body: CreateScheduleBody)
    requires
        is_asked_for(s, body),
    ensures
        s.app == body.app && s.cron == body.cron && s.timezone == body.timezone,
        body.misfire_policy is None ==> s.misfire_policy@ == "fire_once"@,
        body.misfire_policy matches Some(p) ==> s.misfire_policy@ == p@,
        body.max_attempts is None <==> s.max_attempts is None,
        body.max_attempts matches Some(n) ==> {
            &&& 1 <= n <= 20 ==> s.max_attempts == Some(n)
            &&& n < 1 ==> s.max_attempts == Some(1i64)
            &&& n > 20 ==> s.max_attempts == Some(20i64)
        },
        body.priority matches Some(n) ==> s.priority == n,
        body.priority is None ==> s.priority == 0,
        body.params matches Some(p) ==> s.params == p,
        body.params is None ==> s.params == Json::Null,
{
}

/// Reads a request for a schedule whose expression and time zone have been looked
/// at.
pub fn schedule_from(
    body: CreateScheduleBody,
    app_known: bool,
    cron: Result<(), String>,
    timezone_known: bool,
) -> (r: Result<NewSchedule, ApiError>)
    ensures
        match schedule_refusal(body, app_known, cron_view(cron), timezone_known) {
            Some(refusal) => r matches Err(e) && e@ == refusal,
            None => r matches Ok(s) && is_asked_for(s, body),
        },
{
    if !app_known {
        let mut m = owned("unknown app '");
        m.append(body.app.as_str());
        m.append("'");
        return Err(ApiError::new(NOT_FOUND, m));
    }
    if let Err(why) = cron {
        let mut m = owned("invalid cron: ");
        m.append(why.as_str());
        return Err(ApiError::new(BAD_REQUEST, m));
    }
    if let Some(tz) = &body.timezone {
        if !timezone_known {
            let mut m = owned("unknown timezone '");
            m.append(tz.as_str());
            m.append("'");
            return Err(ApiError::new(BAD_REQUEST, m));
        }
    }
    let policy = match &body.misfire_policy {
        Some(p) => owned(p.as_str()),
        None => owned("fire_once"),
    };
    if !(same(policy.as_str(), "fire_once") || same(policy.as_str(), "skip")) {
        let mut m = owned("unknown misfire_policy '");
        m.append(policy.as_str());
        m.append("' (expected 'fire_once' or 'skip')");
        return Err(ApiError::new(BAD_REQUEST, m));
    }
    let max_attempts = match body.max_attempts {
        Some(n) => Some(clamp(n, 1, MAX_ATTEMPTS_CAP)),
        None => None,
    };
    let params = match body.params {
        Some(p) => p,
        None => Json::Null,
    };
    let priority: i64 = match body.priority {
        Some(n) => n,
        None => 0,
    };
    Ok(
        NewSchedule {
            app: body.app,
            cron: body.cron,
            params,
            priority,
            timezone: body.timezone,
            misfire_policy: policy,
            max_attempts,
        },
    )
}

/// Reads a request for a schedule: the app must be known, the expression and the
/// time zone must read, and the policy must be one of the two.
pub fn create_schedule(body: CreateScheduleBody, app_known: bool) -> (r: Result<
    NewSchedule,
    ApiError,
>)
    ensures
        match schedule_refusal(
            body,
            app_known,
            cron_reading(body.cron@),
            body.timezone matches Some(tz) && is_timezone(tz@),
        ) {
            Some(refusal) => r matches Err(e) && e@ == refusal,
            None => r matches Ok(s) && is_asked_for(s, body),
        },
{
    let cron = read_cron(body.cron.as_str());
    let timezone_known = match &body.timezone {
        Some(tz) => known_timezone(tz.as_str()),
        None => false,
    };
    schedule_from(body, app_known, cron, timezone_known)
}

} // verus!
