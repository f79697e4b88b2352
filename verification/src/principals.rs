//! Identity and tenancy: what a principal may carry, and how the audit ledger is
//! paged.

use vstd::prelude::*;

use crate::datasets::{clamp, clamped};
use crate::error::{ApiError, BAD_REQUEST, NOT_FOUND, UNPROCESSABLE_ENTITY};
use crate::jobs::{is_positive_finite, Usd};
use crate::json::{lemma_put, models, text_list, Json, JsonModel};
use crate::number::{
    decimal, i64_of, law_decimal_round_trip, lemma_decimal_is_trimmed, read_i64, show_i64,
};
use crate::text::{begins, chars, owned, same, starts_with, trim, trim_chars, trimmed};

verus! {

/// Rows of the audit ledger when a request names no number.
pub const AUDIT_DEFAULT_LIMIT: i64 = 100;

/// Most rows of the audit ledger on one page.
pub const AUDIT_MAX_LIMIT: i64 = 500;

pub const DAILY_HEAD: &'static str =
    "budget_usd_per_day must be a positive number of dollars (got ";

pub const DAILY_MIDDLE: &'static str =
    "). Omitting it means this key runs with NO daily ceiling, so ";

pub const DAILY_TAIL: &'static str =
    " cannot also mean 'spend nothing' — pass a real ceiling, or disable the key.";

/// The refusal of a daily ceiling that is no ceiling.
pub open spec fn daily_message(shown: Seq<char>) -> Seq<char> {
    DAILY_HEAD@ + shown + DAILY_MIDDLE@ + shown + DAILY_TAIL@
}

/// The daily ceiling a principal may carry. Zero is refused: dropping it would
/// turn the most cautious input into the least limited key.
pub fn validate_daily_budget(requested: Option<Usd>) -> (r: Result<Option<Usd>, String>)
    ensures
        match requested {
            None => r == Ok::<Option<Usd>, String>(None),
            Some(b) => if is_positive_finite(b.bits) {
                r == Ok::<Option<Usd>, String>(Some(b))
            } else {
                r matches Err(m) && m@ == daily_message(b.shown@)
            },
        },
{
    match requested {
        None => Ok(None),
        Some(b) => if 0 < b.bits && b.bits < 0x7FF0_0000_0000_0000 {
            Ok(Some(b))
        } else {
            let mut m = owned(DAILY_HEAD);
            m.append(b.shown.as_str());
            m.append(DAILY_MIDDLE);
            m.append(b.shown.as_str());
            m.append(DAILY_TAIL);
            Err(m)
        },
    }
}

/// The refusal of a key that could call nothing.
pub const NO_SCOPES: &'static str =
    "scopes must name at least one grant ('admin', 'read', 'enqueue:<app>', 'enqueue:*') — a key with no scopes can call nothing";

/// Whether a text names a grant: `admin`, `read`, `enqueue:*`, or `enqueue:` and
/// an app.
pub open spec fn is_scope(s: Seq<char>) -> bool {
    ||| s == "admin"@
    ||| s == "read"@
    ||| begins(s, "enqueue:"@) && s.len() > "enqueue:"@.len()
}

/// The refusal of a scope nobody grants.
pub open spec fn scope_message(s: Seq<char>) -> Seq<char> {
    "unknown scope '"@ + s + "' (admin | read | enqueue:<app> | enqueue:*)"@
}

/// The grants are `admin`, `read`, and `enqueue:` with an app behind it.
pub proof fn law_a_scope_is_a_known_grant(s: Seq<char>, app: Seq<char>)
    ensures
        is_scope("admin"@),
        is_scope("read"@),
        is_scope("enqueue:"@ + app) <==> app.len() > 0,
        is_scope(s) ==> s == "admin"@ || s == "read"@ || exists|rest: Seq<char>|
            rest.len() > 0 && s == #[trigger] ("enqueue:"@ + rest),
{
    reveal_strlit("admin");
    reveal_strlit("read");
    reveal_strlit("enqueue:");
    let head = "enqueue:"@;
    assert((head + app).take(head.len() as int) =~= head);
    assert((head + app)[0] == 'e');
    assert("admin"@[0] == 'a' && "read"@[0] == 'r');
    if begins(s, head) && s.len() > head.len() {
        assert(s =~= head + s.skip(head.len() as int));
    }
}

/// One scope, or its refusal: an unknown one is never a silently powerless key.
pub fn validate_scope(scope: &str) -> (r: Result<(), String>)
    ensures
        r is Ok <==> is_scope(scope@),
        r matches Err(m) ==> m@ == scope_message(scope@),
{
    let cs = chars(scope);
    let enqueue = starts_with(&cs, "enqueue:") && cs.len() > chars("enqueue:").len();
    if same(scope, "admin") || same(scope, "read") || enqueue {
        return Ok(());
    }
    let mut m = owned("unknown scope '");
    m.append(scope);
    m.append("' (admin | read | enqueue:<app> | enqueue:*)");
    Err(m)
}

/// The refusal of a list of scopes: of an empty one, or of its first unknown
/// entry.
pub open spec fn scopes_refusal(scopes: Seq<String>) -> Option<Seq<char>> {
    if scopes.len() == 0 {
        Some(NO_SCOPES@)
    } else {
        unknown_scope(scopes)
    }
}

/// The refusal of the first unknown entry.
pub open spec fn unknown_scope(scopes: Seq<String>) -> Option<Seq<char>>
    decreases scopes.len(),
{
    if scopes.len() == 0 {
        None
    } else if !is_scope(scopes[0]@) {
        Some(scope_message(scopes[0]@))
    } else {
        unknown_scope(scopes.drop_first())
    }
}

/// The scopes a principal may carry, or the refusal.
pub fn validate_scopes(scopes: &[String]) -> (r: Result<(), String>)
    ensures
        match r {
            Ok(_) => scopes_refusal(scopes@) is None,
            Err(m) => scopes_refusal(scopes@) == Some(m@),
        },
{
    if scopes.len() == 0 {
        return Err(owned(NO_SCOPES));
    }
    let mut i: usize = 0;
    assert(scopes@.skip(0) =~= scopes@);
    while i < scopes.len()
        invariant
            i <= scopes@.len(),
            scopes@.len() > 0,
            unknown_scope(scopes@) == unknown_scope(scopes@.skip(i as int)),
        decreases scopes@.len() - i,
    {
        assert(scopes@.skip(i as int)[0] == scopes@[i as int]);
        assert(scopes@.skip(i as int).drop_first() =~= scopes@.skip(i + 1));
        match validate_scope(scopes[i].as_str()) {
            Ok(_) => {},
            Err(m) => {
                return Err(m);
            },
        }
        i += 1;
    }
    Ok(())
}

/// A list of scopes is accepted exactly when it names at least one grant and
/// nothing else.
pub proof fn law_accepted_scopes_are_all_known(scopes: Seq<String>)
    ensures
        scopes_refusal(scopes) is None <==> scopes.len() > 0 && forall|i: int|
            0 <= i < scopes.len() ==> is_scope(#[trigger] scopes[i]@),
{
    lemma_unknown_scope(scopes);
}

proof fn lemma_unknown_scope(scopes: Seq<String>)
    ensures
        unknown_scope(scopes) is None <==> forall|i: int|
            0 <= i < scopes.len() ==> is_scope(#[trigger] scopes[i]@),
    decreases scopes.len(),
{
    if scopes.len() > 0 {
        let rest = scopes.drop_first();
        lemma_unknown_scope(rest);
        if unknown_scope(scopes) is None {
            assert forall|i: int| 0 <= i < scopes.len() implies is_scope(
                #[trigger] scopes[i]@,
            ) by {
                if i > 0 {
                    assert(rest[i - 1] == scopes[i]);
                }
            }
        } else if is_scope(scopes[0]@) {
            let k = choose|k: int| 0 <= k < rest.len() && !is_scope(#[trigger] rest[k]@);
            assert(scopes[k + 1] == rest[k]);
        }
    }
}

/// The refusal names the first scope that is none.
pub proof fn law_the_first_unknown_scope_is_named(scopes: Seq<String>, i: int)
    requires
        0 <= i < scopes.len(),
        forall|k: int| 0 <= k < i ==> is_scope((#[trigger] scopes[k])@),
        !is_scope(scopes[i]@),
    ensures
        scopes_refusal(scopes) == Some(
            "unknown scope '"@ + scopes[i]@ + "' (admin | read | enqueue:<app> | enqueue:*)"@,
        ),
    decreases i,
{
    if i > 0 {
        let rest = scopes.drop_first();
        assert(is_scope(scopes[0]@));
        assert forall|k: int| 0 <= k < i - 1 implies is_scope((#[trigger] rest[k])@) by {
            assert(rest[k] == scopes[k + 1]);
        }
        law_the_first_unknown_scope_is_named(rest, i - 1);
    }
}

/// Whom a request resolved as.
#[derive(Debug, PartialEq)]
pub struct Caller {
    pub id: String,
    pub name: String,
    pub scopes: Vec<String>,
    /// An identity this server made up rather than authenticated.
    pub synthetic: bool,
}

/// The caller as it is shown.
pub open spec fn caller_json(c: Option<Caller>) -> JsonModel {
    match c {
        None => JsonModel::Null,
        Some(c) => JsonModel::object().put("id"@, JsonModel::Text(c.id@)).put(
            "name"@,
            JsonModel::Text(c.name@),
        ).put("scopes"@, text_list(c.scopes@)).put("synthetic"@, JsonModel::Bool(c.synthetic)),
    }
}

/// A caller is shown by its id, its name and its grants, and nobody as null.
pub proof fn law_a_caller_is_shown_as_it_is(c: Caller)
    ensures
        caller_json(None) == JsonModel::Null,
        ({
            let shown = caller_json(Some(c));
            &&& shown.get("id"@) == Some(JsonModel::Text(c.id@))
            &&& shown.get("name"@) == Some(JsonModel::Text(c.name@))
            &&& shown.get("scopes"@) == Some(text_list(c.scopes@))
            &&& shown.get("synthetic"@) == Some(JsonModel::Bool(c.synthetic))
        }),
{
    reveal_strlit("id");
    reveal_strlit("name");
    reveal_strlit("scopes");
    reveal_strlit("synthetic");
    let m0 = JsonModel::object();
    lemma_put(m0, "id"@, JsonModel::Text(c.id@));
    let m1 = m0.put("id"@, JsonModel::Text(c.id@));
    lemma_put(m1, "name"@, JsonModel::Text(c.name@));
    let m2 = m1.put("name"@, JsonModel::Text(c.name@));
    lemma_put(m2, "scopes"@, text_list(c.scopes@));
    let m3 = m2.put("scopes"@, text_list(c.scopes@));
    lemma_put(m3, "synthetic"@, JsonModel::Bool(c.synthetic));
}

/// Lists the principals, beside whom this request resolved as.
pub fn list_principals(principals: Vec<Json>, mode: &str, caller: &Option<Caller>) -> (r: Json)
    ensures
        r@ == JsonModel::object().put("count"@, JsonModel::integer(principals@.len() as int)).put(
            "mode"@,
            JsonModel::Text(mode@),
        ).put("caller"@, caller_json(*caller)).put(
            "principals"@,
            JsonModel::Array(models(principals@)),
        ),
{
    let shown = match caller {
        None => Json::Null,
        Some(c) => {
            let mut out = Json::object();
            out.set("id", Json::text(c.id.as_str()));
            out.set("name", Json::text(c.name.as_str()));
            out.set("scopes", Json::texts(c.scopes.as_slice()));
            out.set("synthetic", Json::Bool(c.synthetic));
            out
        },
    };
    let mut out = Json::object();
    out.set("count", Json::unsigned(principals.len() as u64));
    out.set("mode", Json::text(mode));
    out.set("caller", shown);
    out.set("principals", Json::array(principals));
    out
}

/// What a request for a principal asks for.
#[derive(Debug, PartialEq)]
pub struct CreatePrincipalBody {
    pub name: String,
    pub scopes: Vec<String>,
    pub budget_usd_per_day: Option<Usd>,
    pub rate_limit_per_min: Option<i64>,
}

/// A principal that may be stored.
#[derive(Debug, PartialEq)]
pub struct NewPrincipal {
    pub name: String,
    pub scopes: Vec<String>,
    pub budget_usd_per_day: Option<Usd>,
    pub rate_limit_per_min: Option<i64>,
}

/// Reads a request for a principal: the name first, then the scopes, then the
/// ceiling.
pub fn create_principal(body: CreatePrincipalBody) -> (r: Result<NewPrincipal, ApiError>)
    ensures
        if trimmed(body.name@).len() == 0 {
            r matches Err(e) && e@ == (400u16, "name is required"@)
        } else if scopes_refusal(body.scopes@) is Some {
            r matches Err(e) && e@ == (400u16, scopes_refusal(body.scopes@)->0)
        } else if body.budget_usd_per_day is Some && !is_positive_finite(
            body.budget_usd_per_day->0.bits,
        ) {
            r matches Err(e) && e@ == (422u16, daily_message(body.budget_usd_per_day->0.shown@))
        } else {
            &&& r matches Ok(p)
            &&& p.name@ == trimmed(body.name@)
            &&& p.scopes == body.scopes
            &&& p.budget_usd_per_day == body.budget_usd_per_day
            &&& p.rate_limit_per_min == body.rate_limit_per_min
        },
{
    let name = trim(body.name.as_str());
    let cs = chars(name.as_str());
    if cs.len() == 0 {
        return Err(ApiError::fixed(BAD_REQUEST, "name is required"));
    }
    match validate_scopes(&body.scopes) {
        Ok(_) => {},
        Err(m) => {
            return Err(ApiError::new(BAD_REQUEST, m));
        },
    }
    match validate_daily_budget(body.budget_usd_per_day) {
        Ok(budget) => Ok(
            NewPrincipal {
                name,
                scopes: body.scopes,
                budget_usd_per_day: budget,
                rate_limit_per_min: body.rate_limit_per_min,
            },
        ),
        Err(m) => Err(ApiError::new(UNPROCESSABLE_ENTITY, m)),
    }
}

/// The answer of a write that names a principal: the store found it, or it is
/// unknown.
pub fn principal_found(found: bool) -> (r: Result<(), ApiError>)
    ensures
        r is Ok <==> found,
        r matches Err(e) ==> e@ == (404u16, "principal not found"@),
{
    if found {
        Ok(())
    } else {
        Err(ApiError::fixed(NOT_FOUND, "principal not found"))
    }
}

/// The row id an audit cursor names: the ledger's own key, which two rows never
/// share.
pub open spec fn audit_row(cursor: Seq<char>) -> Option<i64> {
    i64_of(trimmed(cursor))
}

/// Reads an audit cursor. A blank or unreadable one starts from the top.
pub fn parse_audit_cursor(cursor: &str) -> (r: Option<i64>)
    ensures
        r == audit_row(cursor@),
        trimmed(cursor@).len() == 0 ==> r is None,
{
    let cs = chars(cursor);
    read_i64(trim_chars(&cs))
}

/// The cursor a page hands out is read back as the row it names.
pub proof fn law_audit_cursor_round_trip(id: i64)
    ensures
        audit_row(decimal(id as int)) == Some(id),
{
    lemma_decimal_is_trimmed(id as int);
    law_decimal_round_trip(id);
}

/// What a page of the audit ledger asks for: the row it starts before and how
/// many rows it may hold.
pub fn list_audit(cursor: &Option<String>, limit: Option<i64>) -> (r: (Option<i64>, i64))
    ensures
        r.0 == match *cursor {
            Some(c) => audit_row(c@),
            None => None,
        },
        r.1 == clamped(
            match limit {
                Some(n) => n,
                None => 100,
            },
            1,
            500,
        ),
{
    let n: i64 = match limit {
        Some(n) => n,
        None => AUDIT_DEFAULT_LIMIT,
    };
    let after = match cursor {
        Some(c) => parse_audit_cursor(c.as_str()),
        None => None,
    };
    (after, clamp(n, 1, AUDIT_MAX_LIMIT))
}

/// The cursor of the next page: the last row's id, when the page came back full.
pub fn audit_next_cursor(ids: &[i64], limit: i64) -> (r: Option<String>)
    ensures
        r is Some <==> ids@.len() > 0 && ids@.len() == limit,
        r matches Some(c) ==> c@ == decimal(ids@.last() as int),
{
    if ids.len() > 0 && limit >= 0 && ids.len() as u64 == limit as u64 {
        Some(show_i64(ids[ids.len() - 1]))
    } else {
        None
    }
}

} // verus!
