//! The HTTP error contract: which status a failure carries, which machine code
//! goes with it, and how much of the cause a client may see.

use vstd::prelude::*;

use crate::text::owned;

verus! {

pub const BAD_REQUEST: u16 = 400;

pub const UNAUTHORIZED: u16 = 401;

pub const PAYMENT_REQUIRED: u16 = 402;

pub const FORBIDDEN: u16 = 403;

pub const NOT_FOUND: u16 = 404;

pub const CONFLICT: u16 = 409;

pub const PAYLOAD_TOO_LARGE: u16 = 413;

pub const UNPROCESSABLE_ENTITY: u16 = 422;

pub const PRECONDITION_REQUIRED: u16 = 428;

pub const TOO_MANY_REQUESTS: u16 = 429;

pub const INTERNAL_SERVER_ERROR: u16 = 500;

pub const BAD_GATEWAY: u16 = 502;

pub const SERVICE_UNAVAILABLE: u16 = 503;

/// Upper bound on a client-supplied `max_attempts`, so that no job, schedule or
/// trigger can ask for a retry loop that practically never ends.
pub const MAX_ATTEMPTS_CAP: i64 = 20;

/// A refusal as the client sees it: the HTTP status and the human sentence.
#[derive(Debug, PartialEq)]
pub struct ApiError {
    pub status: u16,
    pub message: String,
}

impl View for ApiError {
    type V = (u16, Seq<char>);

    open spec fn view(&self) -> (u16, Seq<char>) {
        (self.status, self.message@)
    }
}

impl ApiError {
    /// A refusal with the given status and message.
    pub fn new(status: u16, message: String) -> (r: ApiError)
        ensures
            r@ == (status, message@),
    {
        ApiError { status, message }
    }

    /// A refusal whose message is fixed text.
    pub fn fixed(status: u16, message: &str) -> (r: ApiError)
        ensures
            r@ == (status, message@),
    {
        ApiError { status, message: owned(message) }
    }

    /// The machine code that goes with this refusal.
    pub fn code(&self) -> (r: &'static str)
        ensures
            r@ == code_of(self.status),
    {
        error_code(self.status)
    }
}

/// The stable machine code of a status. `402` has one producer in this
/// service, the spend ceiling, and `428` one as well, the two-step delete: their
/// codes name what a client can act on.
pub open spec fn code_of(status: u16) -> Seq<char> {
    if status == 400 {
        "bad_request"@
    } else if status == 401 {
        "unauthorized"@
    } else if status == 402 {
        "budget_exhausted"@
    } else if status == 403 {
        "forbidden"@
    } else if status == 404 {
        "not_found"@
    } else if status == 409 {
        "conflict"@
    } else if status == 413 {
        "too_large"@
    } else if status == 422 {
        "unprocessable"@
    } else if status == 428 {
        "confirmation_required"@
    } else if status == 429 {
        "rate_limited"@
    } else if status == 502 {
        "bad_gateway"@
    } else if status == 503 {
        "unavailable"@
    } else {
        "internal"@
    }
}

/// Stable machine-readable code derived from the HTTP status, sent alongside the
/// human sentence so that consumers can branch without matching strings.
pub fn error_code(status: u16) -> (r: &'static str)
    ensures
        r@ == code_of(status),
{
    match status {
        400 => "bad_request",
        401 => "unauthorized",
        402 => "budget_exhausted",
        403 => "forbidden",
        404 => "not_found",
        409 => "conflict",
        413 => "too_large",
        422 => "unprocessable",
        428 => "confirmation_required",
        429 => "rate_limited",
        502 => "bad_gateway",
        503 => "unavailable",
        _ => "internal",
    }
}

/// A failure inside the service, by cause, with the text that describes it.
#[derive(Debug, PartialEq)]
pub enum Error {
    BadRequest(String),
    Transact(String),
    BudgetExhausted(String),
    Profile(String),
    ReplayMiss(String),
    Http(String),
    Browser(String),
    Claude(String),
    Storage(String),
    Parse(String),
    Config(String),
    App(String),
    Io(String),
    Json(String),
    Other(String),
}

/// The body a 500 shows the client. It says nothing on purpose.
pub const INTERNAL_MESSAGE: &'static str = "internal error";

/// The body a 502 shows the client; neither the failing host nor its URL is in it.
pub const UPSTREAM_MESSAGE: &'static str = "upstream engine failure";

/// Profile failures carry a server-side directory, so their message is fixed and
/// names the parameter instead.
pub const PROFILE_MESSAGE: &'static str =
    "invalid or unusable session profile — check the 'profile' parameter";

/// Replay misses carry the recording's path and the unmatched request.
pub const REPLAY_MISS_MESSAGE: &'static str =
    "the recorded cassette cannot serve this request (missing, unrecorded, or truncated)";

/// What a client is told of a failure. Client faults keep their own message;
/// what describes the inside of the process is replaced by fixed text.
pub open spec fn disclosed(e: Error) -> (u16, Seq<char>) {
    match e {
        Error::BadRequest(m) => (400u16, m@),
        Error::Transact(m) => (422u16, m@),
        Error::BudgetExhausted(m) => (402u16, m@),
        Error::Profile(_) => (400u16, PROFILE_MESSAGE@),
        Error::ReplayMiss(_) => (409u16, REPLAY_MISS_MESSAGE@),
        Error::Http(_) | Error::Browser(_) | Error::Claude(_) => (502u16, UPSTREAM_MESSAGE@),
        Error::Storage(_)
        | Error::Parse(_)
        | Error::Config(_)
        | Error::App(_)
        | Error::Io(_)
        | Error::Json(_)
        | Error::Other(_) => (500u16, INTERNAL_MESSAGE@),
    }
}

/// The status a failure deserves at the HTTP boundary, and the message the
/// client is allowed to see.
pub fn client_facing(e: &Error) -> (r: ApiError)
    ensures
        r@ == disclosed(*e),
{
    match e {
        Error::BadRequest(m) => ApiError::fixed(BAD_REQUEST, m.as_str()),
        Error::Transact(m) => ApiError::fixed(UNPROCESSABLE_ENTITY, m.as_str()),
        Error::BudgetExhausted(m) => ApiError::fixed(PAYMENT_REQUIRED, m.as_str()),
        Error::Profile(_) => ApiError::fixed(BAD_REQUEST, PROFILE_MESSAGE),
        Error::ReplayMiss(_) => ApiError::fixed(CONFLICT, REPLAY_MISS_MESSAGE),
        Error::Http(_) | Error::Browser(_) | Error::Claude(_) => ApiError::fixed(
            BAD_GATEWAY,
            UPSTREAM_MESSAGE,
        ),
        Error::Storage(_)
        | Error::Parse(_)
        | Error::Config(_)
        | Error::App(_)
        | Error::Io(_)
        | Error::Json(_)
        | Error::Other(_) => ApiError::fixed(INTERNAL_SERVER_ERROR, INTERNAL_MESSAGE),
    }
}

/// Whether a status reports a failure of the server's own.
pub open spec fn is_server_error(status: u16) -> bool {
    500 <= status <= 599
}

/// What reaches a client with a 5xx depends on the status alone: two failures
/// that are answered with the same 5xx are answered with the same body.
pub proof fn law_server_errors_do_not_disclose(a: Error, b: Error)
    requires
        is_server_error(disclosed(a).0),
        disclosed(b).0 == disclosed(a).0,
    ensures
        disclosed(a) == disclosed(b),
        disclosed(a).1 == INTERNAL_MESSAGE@ || disclosed(a).1 == UPSTREAM_MESSAGE@,
{
}

/// Every failure is answered with a 4xx or a 5xx, and every 4xx it can be
/// answered with has a machine code of its own, distinct from `internal`.
pub proof fn law_refusals_are_not_internal(e: Error)
    ensures
        400 <= disclosed(e).0 <= 599,
        disclosed(e).0 < 500 ==> code_of(disclosed(e).0) != "internal"@,
        disclosed(e).0 == 500 ==> code_of(disclosed(e).0) == "internal"@,
{
    law_client_codes_are_named(disclosed(e).0);
}

/// The refusals this service names — 400, 401, 402, 403, 404, 409, 413, 422,
/// 428, 429 and the retryable 502 and 503 — never read as `internal`.
pub proof fn law_client_codes_are_named(status: u16)
    ensures
        code_of(status) == "internal"@ <==> !(status == 400 || status == 401 || status == 402
            || status == 403 || status == 404 || status == 409 || status == 413 || status == 422
            || status == 428 || status == 429 || status == 502 || status == 503),
{
    reveal_strlit("internal");
    reveal_strlit("bad_request");
    reveal_strlit("unauthorized");
    reveal_strlit("budget_exhausted");
    reveal_strlit("forbidden");
    reveal_strlit("not_found");
    reveal_strlit("conflict");
    reveal_strlit("too_large");
    reveal_strlit("unprocessable");
    reveal_strlit("confirmation_required");
    reveal_strlit("rate_limited");
    reveal_strlit("bad_gateway");
    reveal_strlit("unavailable");
    let code = code_of(status);
    if code == "internal"@ {
        assert("internal"@[0] == 'i');
        assert("conflict"@[0] == 'c');
    }
}

/// A caught panic's payload, by shape: `panic!` makes a literal or a formatted
/// message, and anything else was raised explicitly.
#[derive(Debug, PartialEq)]
pub enum PanicPayload {
    Literal(&'static str),
    Formatted(String),
    Opaque,
}

/// The human message for a caught panic payload.
pub fn panic_message(payload: &PanicPayload) -> (r: String)
    ensures
        r@ == (match *payload {
            PanicPayload::Literal(s) => s@,
            PanicPayload::Formatted(s) => s@,
            PanicPayload::Opaque => "non-string panic payload"@,
        }),
{
    match payload {
        PanicPayload::Literal(s) => owned(s),
        PanicPayload::Formatted(s) => owned(s.as_str()),
        PanicPayload::Opaque => owned("non-string panic payload"),
    }
}

/// Page size used when a request names none.
pub fn default_limit() -> (r: i64)
    ensures
        r == 50,
{
    50
}

/// Of a fault's own words a client sees those about its own request, its transaction
/// and its budget, and no others.
pub proof fn law_only_the_clients_own_faults_are_quoted(m: String)
    ensures
        disclosed(Error::BadRequest(m)) == (400u16, m@),
        disclosed(Error::Transact(m)) == (422u16, m@),
        disclosed(Error::BudgetExhausted(m)) == (402u16, m@),
        disclosed(Error::Profile(m)) == (400u16, PROFILE_MESSAGE@),
        disclosed(Error::ReplayMiss(m)) == (409u16, REPLAY_MISS_MESSAGE@),
        disclosed(Error::Http(m)) == (502u16, UPSTREAM_MESSAGE@),
        disclosed(Error::Browser(m)) == (502u16, UPSTREAM_MESSAGE@),
        disclosed(Error::Claude(m)) == (502u16, UPSTREAM_MESSAGE@),
        disclosed(Error::Storage(m)) == (500u16, INTERNAL_MESSAGE@),
        disclosed(Error::Parse(m)) == (500u16, INTERNAL_MESSAGE@),
        disclosed(Error::Config(m)) == (500u16, INTERNAL_MESSAGE@),
        disclosed(Error::App(m)) == (500u16, INTERNAL_MESSAGE@),
        disclosed(Error::Io(m)) == (500u16, INTERNAL_MESSAGE@),
        disclosed(Error::Json(m)) == (500u16, INTERNAL_MESSAGE@),
        disclosed(Error::Other(m)) == (500u16, INTERNAL_MESSAGE@),
{
}

/// Every status has its own code.
pub proof fn law_each_status_has_its_code()
    ensures
        code_of(400) == "bad_request"@,
        code_of(401) == "unauthorized"@,
        code_of(402) == "budget_exhausted"@,
        code_of(403) == "forbidden"@,
        code_of(404) == "not_found"@,
        code_of(409) == "conflict"@,
        code_of(413) == "too_large"@,
        code_of(422) == "unprocessable"@,
        code_of(428) == "confirmation_required"@,
        code_of(429) == "rate_limited"@,
        code_of(500) == "internal"@,
        code_of(502) == "bad_gateway"@,
        code_of(503) == "unavailable"@,
{
}

} // verus!
