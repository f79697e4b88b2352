//! Inbound event ingress: per-source rate limiting and the sequence of gates a
//! signed external event passes before it is stamped onto the event bus.

use vstd::prelude::*;
use vstd::slice::slice_subrange;
use vstd::utf8::encode_utf8;

use crate::error::{
    ApiError, BAD_REQUEST, CONFLICT, FORBIDDEN, NOT_FOUND, PAYLOAD_TOO_LARGE, TOO_MANY_REQUESTS,
    UNAUTHORIZED,
};
use crate::ident::{
    fresh_uuid, hex, hex_of, read_uuid, sha256, sha256_of, show_uuid, uuid_reading, uuid_text,
};
use crate::json::{Json, JsonModel};
use crate::number::{decimal, i64_of, parse_i64, push_u64};
use crate::text::{begins, chars, owned, same, starts_with, string_of, trim, trimmed};

verus! {

/// One token, in the unit buckets count in: a source limited to `n` events per
/// minute gains `n` units each nanosecond.
pub const TOKEN: u128 = 60_000_000_000;

/// A source's bucket: what it holds, and when it was last refilled, in
/// nanoseconds of a clock that never runs backwards.
#[derive(Debug, Clone, Copy, PartialEq, Eq, Structural)]
pub struct Bucket {
    pub units: u128,
    pub refilled_at: u64,
}

/// What a bucket of `per_min` holds when it is full.
pub open spec fn capacity(per_min: u32) -> int {
    per_min * 60_000_000_000
}

/// What a bucket holds after `elapsed` nanoseconds of refill, capped at the burst.
pub open spec fn refilled(units: int, elapsed: int, per_min: u32) -> int {
    let grown = units + elapsed * per_min;
    if grown < capacity(per_min) {
        grown
    } else {
        capacity(per_min)
    }
}

/// Pure token-bucket step: refills for `elapsed` nanoseconds at `per_min` tokens
/// a minute, capped at a burst of `per_min` tokens, then takes one if there is
/// one. Gives what is left and whether the event may pass.
pub fn bucket_step(units: u128, elapsed: u64, per_min: u32) -> (r: (u128, bool))
    requires
        units <= u128::MAX / 2,
    ensures
        r.1 <==> refilled(units as int, elapsed as int, per_min) >= 60_000_000_000,
        r.0 == refilled(units as int, elapsed as int, per_min) - if r.1 {
            60_000_000_000int
        } else {
            0
        },
{
    assert(elapsed as u128 * per_min as u128 <= 0xffff_ffff_ffff_ffffu128 * 0xffff_ffffu128)
        by (nonlinear_arith)
        requires
            elapsed <= 0xffff_ffff_ffff_ffff,
            per_min <= 0xffff_ffff,
    ;
    let cap: u128 = per_min as u128 * TOKEN;
    let grown: u128 = units + elapsed as u128 * per_min as u128;
    let full: u128 = if grown < cap {
        grown
    } else {
        cap
    };
    if full >= TOKEN {
        (full - TOKEN, true)
    } else {
        (full, false)
    }
}

/// The buckets of all sources seen so far, one per source.
#[derive(Debug)]
pub struct RateLimiter {
    entries: Vec<(String, Bucket)>,
}

impl RateLimiter {
    /// The bucket of a source, if it has one.
    pub closed spec fn bucket_of(self, id: Seq<char>) -> Option<Bucket> {
        if exists|i: int| 0 <= i < self.entries@.len() && (#[trigger] self.entries@[i]).0@ == id {
            let i = choose|i: int|
                0 <= i < self.entries@.len() && (#[trigger] self.entries@[i]).0@ == id;
            Some(self.entries@[i].1)
        } else {
            None
        }
    }

    #[verifier::type_invariant]
    spec fn sound(self) -> bool {
        &&& forall|i: int, j: int|
            0 <= i < j < self.entries@.len() ==> (#[trigger] self.entries@[i]).0@ != (
            #[trigger] self.entries@[j]).0@
        &&& forall|i: int|
            0 <= i < self.entries@.len() ==> (#[trigger] self.entries@[i]).1.units <= capacity(
                u32::MAX,
            )
    }

    /// A limiter that has seen no source.
    pub fn new() -> (r: RateLimiter)
        ensures
            forall|id: Seq<char>| r.bucket_of(id) is None,
    {
        RateLimiter { entries: Vec::new() }
    }

    proof fn lemma_bucket_at(self, i: int)
        requires
            self.sound(),
            0 <= i < self.entries@.len(),
        ensures
            self.bucket_of(self.entries@[i].0@) == Some(self.entries@[i].1),
    {
        let id = self.entries@[i].0@;
        let j = choose|j: int|
            0 <= j < self.entries@.len() && (#[trigger] self.entries@[j]).0@ == id;
        assert(self.entries@[i].0@ == id);
        if i < j {
            assert(self.entries@[i].0@ != self.entries@[j].0@);
        } else if j < i {
            assert(self.entries@[j].0@ != self.entries@[i].0@);
        }
    }
}

/// Whether an event passes the bucket its source had, and what the bucket is then. A
/// source that was not seen before starts with a full one.
pub open spec fn bucket_after(before: Option<Bucket>, per_min: u32, now: u64) -> (bool, Bucket) {
    let bucket = match before {
        Some(b) => b,
        None => Bucket { units: capacity(per_min) as u128, refilled_at: now },
    };
    let elapsed = if bucket.refilled_at <= now {
        now - bucket.refilled_at
    } else {
        0
    };
    let full = refilled(bucket.units as int, elapsed, per_min);
    if full >= 60_000_000_000 {
        (true, Bucket { units: (full - 60_000_000_000) as u128, refilled_at: now })
    } else {
        (false, Bucket { units: full as u128, refilled_at: now })
    }
}

/// Consumes one token of a source, which starts with a full bucket the first
/// time it is seen. No other source is touched.
pub fn rate_limit_allow(
    limiter: &mut RateLimiter,
    source_id: &str,
    per_min: u32,
    now: u64,
) -> (r: bool)
    ensures
        r == bucket_after(old(limiter).bucket_of(source_id@), per_min, now).0,
        final(limiter).bucket_of(source_id@) == Some(
            bucket_after(old(limiter).bucket_of(source_id@), per_min, now).1,
        ),
        forall|id: Seq<char>|
            id != source_id@ ==> final(limiter).bucket_of(id) == old(limiter).bucket_of(id),
{
    proof {
        use_type_invariant(&*limiter);
    }
    let ghost was = *limiter;
    let mut entries: Vec<(String, Bucket)> = Vec::new();
    std::mem::swap(&mut entries, &mut limiter.entries);
    let mut i: usize = 0;
    while i < entries.len() && !same(entries[i].0.as_str(), source_id)
        invariant
            i <= entries@.len(),
            forall|k: int| 0 <= k < i ==> (#[trigger] entries@[k]).0@ != source_id@,
        decreases entries@.len() - i,
    {
        i += 1;
    }
    let known = i < entries.len();
    let before: Bucket = if known {
        entries[i].1
    } else {
        Bucket { units: per_min as u128 * TOKEN, refilled_at: now }
    };
    proof {
        if known {
            was.lemma_bucket_at(i as int);
        }
    }
    let elapsed: u64 = if before.refilled_at <= now {
        now - before.refilled_at
    } else {
        0
    };
    let (units, allowed) = bucket_step(before.units, elapsed, per_min);
    let after = Bucket { units, refilled_at: now };
    let ghost had = entries@;
    if known {
        let id = owned(source_id);
        entries.set(i, (id, after));
        assert(forall|k: int|
            0 <= k < entries@.len() ==> (#[trigger] entries@[k]).0@ == had[k].0@);
    } else {
        entries.push((owned(source_id), after));
    }
    proof {
        assert forall|a: int, b: int| 0 <= a < b < entries@.len() implies (
        #[trigger] entries@[a]).0@ != (#[trigger] entries@[b]).0@ by {
            if b < had.len() {
                assert(had[a].0@ != had[b].0@);
            } else {
                assert(had[a].0@ != source_id@);
            }
        }
        assert forall|a: int| 0 <= a < entries@.len() implies (
        #[trigger] entries@[a]).1.units <= capacity(u32::MAX) by {
            if a != i {
                assert(had[a].1.units <= capacity(u32::MAX));
            }
        }
    }
    limiter.entries = entries;
    proof {
        limiter.lemma_bucket_at(i as int);
        assert forall|id: Seq<char>| id != source_id@ implies limiter.bucket_of(id)
            == was.bucket_of(id) by {
            if exists|k: int|
                0 <= k < was.entries@.len() && (#[trigger] was.entries@[k]).0@ == id {
                let k = choose|k: int|
                    0 <= k < was.entries@.len() && (#[trigger] was.entries@[k]).0@ == id;
                was.lemma_bucket_at(k);
                assert(k != i);
                assert(limiter.entries@[k] == was.entries@[k]);
                limiter.lemma_bucket_at(k);
            } else {
                if exists|k: int|
                    0 <= k < limiter.entries@.len() && (#[trigger] limiter.entries@[k]).0@ == id {
                    let k = choose|k: int|
                        0 <= k < limiter.entries@.len() && (#[trigger] limiter.entries@[k]).0@ == id;
                    assert(was.entries@[k].0@ == id);
                }
            }
        }
    }
    allowed
}

/// How many of a run of events pass, and what is left in the bucket, when event
/// `i` comes `gaps[i]` nanoseconds after the one before it.
pub open spec fn passed(units: int, gaps: Seq<u64>, per_min: u32) -> (int, int)
    decreases gaps.len(),
{
    if gaps.len() == 0 {
        (0, units)
    } else {
        let (count, left) = passed(units, gaps.drop_last(), per_min);
        let full = refilled(left, gaps.last() as int, per_min);
        if full >= 60_000_000_000 {
            (count + 1, full - 60_000_000_000)
        } else {
            (count, full)
        }
    }
}

/// The time a run of events spans.
pub open spec fn span(gaps: Seq<u64>) -> int
    decreases gaps.len(),
{
    if gaps.len() == 0 {
        0
    } else {
        span(gaps.drop_last()) + gaps.last()
    }
}

/// Over any run of events a source passes at most what its bucket held plus what
/// the refill of that time is worth: the limit holds whatever the arrival pattern.
pub proof fn law_rate_is_bounded(units: int, gaps: Seq<u64>, per_min: u32)
    ensures
        passed(units, gaps, per_min).0 * 60_000_000_000 + passed(units, gaps, per_min).1 <= units
            + span(gaps) * per_min,
    decreases gaps.len(),
{
    if gaps.len() > 0 {
        let before = gaps.drop_last();
        law_rate_is_bounded(units, before, per_min);
        assert(span(gaps) * per_min == span(before) * per_min + gaps.last() * per_min)
            by (nonlinear_arith)
            requires
                span(gaps) == span(before) + gaps.last(),
        ;
    }
}

/// The bucket of a source after events at these times.
pub open spec fn bucket_run(before: Option<Bucket>, per_min: u32, times: Seq<u64>) -> Option<Bucket>
    decreases times.len(),
{
    if times.len() == 0 {
        before
    } else {
        let had = bucket_run(before, per_min, times.drop_last());
        Some(bucket_after(had, per_min, times.last()).1)
    }
}

/// Whether event `i` of those at these times passes.
pub open spec fn passes(before: Option<Bucket>, per_min: u32, times: Seq<u64>, i: int) -> bool {
    bucket_after(bucket_run(before, per_min, times.take(i)), per_min, times[i]).0
}

proof fn lemma_burst_left(per_min: u32, times: Seq<u64>)
    requires
        times.len() > 0,
        forall|k: int| 0 <= k < times.len() ==> #[trigger] times[k] == times[0],
    ensures
        bucket_run(None, per_min, times) == Some(
            Bucket {
                units: (if times.len() <= per_min {
                    (per_min - times.len()) * 60_000_000_000
                } else {
                    0
                }) as u128,
                refilled_at: times[0],
            },
        ),
    decreases times.len(),
{
    let rest = times.drop_last();
    assert(0 * per_min == 0) by (nonlinear_arith);
    if rest.len() > 0 {
        assert forall|k: int| 0 <= k < rest.len() implies #[trigger] rest[k] == rest[0] by {
            assert(times[k] == times[0]);
        }
        lemma_burst_left(per_min, rest);
        assert(times.last() == times[0]);
    } else {
        assert(bucket_run(None, per_min, rest) is None);
    }
}

/// A source that was not seen before passes exactly its first `per_min` events at one
/// instant: the burst it is promised, and no more.
pub proof fn law_a_new_source_passes_its_burst(per_min: u32, times: Seq<u64>, i: int)
    requires
        0 <= i < times.len(),
        forall|k: int| 0 <= k < times.len() ==> #[trigger] times[k] == times[0],
    ensures
        passes(None, per_min, times, i) <==> i < per_min,
{
    let before = times.take(i);
    assert(0 * per_min == 0) by (nonlinear_arith);
    assert(times[i] == times[0]);
    if i > 0 {
        assert forall|k: int| 0 <= k < before.len() implies #[trigger] before[k] == before[0] by {
            assert(times[k] == times[0]);
        }
        lemma_burst_left(per_min, before);
    }
}

/// A bucket never holds more than its burst after an event, however long the
/// source was idle.
pub proof fn law_burst_is_capped(units: int, elapsed: int, per_min: u32)
    ensures
        refilled(units, elapsed, per_min) <= capacity(per_min),
{
}

/// A minute fills any bucket, and a bucket grows with the time in proportion to its
/// rate until it is full.
pub proof fn law_a_minute_fills_the_bucket(units: int, elapsed: int, per_min: u32)
    requires
        units >= 0,
        elapsed >= 0,
    ensures
        elapsed >= 60_000_000_000 ==> refilled(units, elapsed, per_min) == per_min
            * 60_000_000_000,
        units + elapsed * per_min <= per_min * 60_000_000_000 ==> refilled(units, elapsed, per_min)
            == units + elapsed * per_min,
{
    if elapsed >= 60_000_000_000 {
        assert(elapsed * per_min >= 60_000_000_000 * per_min) by (nonlinear_arith)
            requires
                elapsed >= 60_000_000_000,
                per_min >= 0,
        ;
    }
}

/// A clock that stepped back adds nothing to a bucket: the event passes exactly
/// where a token was already there.
pub proof fn law_a_clock_step_back_adds_nothing(b: Bucket, per_min: u32, now: u64)
    requires
        now <= b.refilled_at,
        b.units <= capacity(per_min),
    ensures
        bucket_after(Some(b), per_min, now).0 <==> b.units >= 60_000_000_000,
        bucket_after(Some(b), per_min, now).1.units == b.units - if bucket_after(
            Some(b),
            per_min,
            now,
        ).0 {
            60_000_000_000int
        } else {
            0
        },
        bucket_after(Some(b), per_min, now).1.refilled_at == now,
{
    assert(0 * per_min == 0) by (nonlinear_arith);
    assert(capacity(per_min) <= u128::MAX);
}

/// What `[ingress]` configures.
#[derive(Debug, Clone, Copy, PartialEq, Eq)]
pub struct IngressConfig {
    pub enabled: bool,
    pub rate_limit_per_min: u32,
    pub max_body_bytes: usize,
    pub max_skew_secs: i64,
}

/// An ingress source, without its secret.
#[derive(Debug, PartialEq)]
pub struct IngressSource {
    pub id: String,
    pub name: String,
    pub enabled: bool,
}

/// The headers of an ingest request that bear on its signature, as sent.
#[derive(Debug, PartialEq)]
pub struct SignatureHeaders {
    pub pumper_signature: Option<String>,
    pub hub_signature: Option<String>,
    pub delivery_id: Option<String>,
    pub timestamp: Option<String>,
}

/// What a request claims about itself: the digest it was signed with, the
/// timestamp that is part of the signed text when one was sent, and the sender's
/// delivery id, empty when none was sent.
#[derive(Debug, PartialEq)]
pub struct Claim {
    pub signature: String,
    pub timestamp: Option<i64>,
    pub delivery_id: String,
}

/// The next thing an ingest request needs.
#[derive(Debug, PartialEq)]
pub enum Ingest {
    /// The source is to be looked up.
    NeedSource,
    /// One token of the source's bucket is to be taken.
    NeedToken(IngressSource),
    /// The claim's signature is to be verified over the body.
    NeedVerification(IngressSource, Claim),
    /// The event is to be emitted under this id and its triggers fired.
    Emit(IngressSource, [u8; 16]),
    /// The request is answered with a refusal.
    Refused(ApiError),
}

impl Ingest {
    /// Whether this is the refusal with the given status and message.
    pub open spec fn refuses(self, status: u16, message: Seq<char>) -> bool {
        self matches Ingest::Refused(e) && e@ == (status, message)
    }
}

fn refused(status: u16, message: &str) -> (r: Ingest)
    ensures
        r.refuses(status, message@),
{
    Ingest::Refused(ApiError::fixed(status, message))
}

/// What the first gate says.
pub open spec fn begun(cfg: IngressConfig, r: Ingest) -> bool {
    if cfg.enabled {
        r is NeedSource
    } else {
        r.refuses(409, "inbound ingress is disabled ([ingress] enabled = false)"@)
    }
}

/// The first gate: nothing comes in while ingress is switched off.
pub fn ingest_begin(cfg: &IngressConfig) -> (r: Ingest)
    ensures
        begun(*cfg, r),
{
    if cfg.enabled {
        Ingest::NeedSource
    } else {
        refused(CONFLICT, "inbound ingress is disabled ([ingress] enabled = false)")
    }
}

/// What the second gate says.
pub open spec fn sourced(source: Option<IngressSource>, r: Ingest) -> bool {
    match source {
        None => r.refuses(404, "ingress source not found"@),
        Some(s) => if s.enabled {
            r == Ingest::NeedToken(s)
        } else {
            r.refuses(403, "ingress source is disabled"@)
        },
    }
}

/// The second gate: the source must exist and be enabled.
pub fn ingest_with_source(source: Option<IngressSource>) -> (r: Ingest)
    ensures
        sourced(source, r),
{
    match source {
        None => refused(NOT_FOUND, "ingress source not found"),
        Some(s) => if s.enabled {
            Ingest::NeedToken(s)
        } else {
            refused(FORBIDDEN, "ingress source is disabled")
        },
    }
}

/// A header's text, trimmed.
pub open spec fn header_text(h: Option<String>) -> Option<Seq<char>> {
    match h {
        Some(s) => Some(trimmed(s@)),
        None => None,
    }
}

/// The signature header that counts: the service's own, or else GitHub's.
pub open spec fn signature_header(h: SignatureHeaders) -> Option<Seq<char>> {
    match header_text(h.pumper_signature) {
        Some(s) => Some(s),
        None => header_text(h.hub_signature),
    }
}

/// A signature without its algorithm prefix.
pub open spec fn bare_signature(s: Seq<char>) -> Seq<char> {
    if begins(s, "sha256="@) {
        s.skip("sha256="@.len() as int)
    } else {
        s
    }
}

/// The distance of two instants in seconds.
pub open spec fn skew(now: i64, ts: i64) -> int {
    if now >= ts {
        now - ts
    } else {
        ts - now
    }
}

/// What the headers amount to: a claim that is worth verifying, or the message
/// of a 401.
pub open spec fn claim_of(h: SignatureHeaders, now: i64, max_skew: i64) -> Result<
    (Seq<char>, Option<i64>, Seq<char>),
    Seq<char>,
> {
    match signature_header(h) {
        None => Err("missing x-pumper-signature"@),
        Some(sig) => {
            let delivery = match header_text(h.delivery_id) {
                Some(d) => d,
                None => ""@,
            };
            match header_text(h.timestamp) {
                None => Ok((bare_signature(sig), None, delivery)),
                Some(raw) => match i64_of(raw) {
                    None => Err("invalid x-pumper-timestamp"@),
                    Some(ts) => if skew(now, ts) > max_skew {
                        Err("timestamp outside the accepted skew window"@)
                    } else {
                        Ok((bare_signature(sig), Some(ts), delivery))
                    },
                },
            }
        },
    }
}

/// The digest `sig` states: what follows `sha256=` where it begins so, else all
/// of it.
pub open spec fn digest_in(sig: Seq<char>, digest: Seq<char>) -> bool {
    ||| sig == "sha256="@ + digest
    ||| sig == digest && forall|rest: Seq<char>| sig != #[trigger] ("sha256="@ + rest)
}

/// A request is missing a signature only where it bears neither header. The
/// service's own header counts where it was sent, and GitHub's where it was not;
/// what is verified is that header's trimmed text without a leading `sha256=`.
pub proof fn law_either_signature_header_will_do(h: SignatureHeaders, now: i64, max_skew: i64)
    ensures
        claim_of(h, now, max_skew) == Err::<(Seq<char>, Option<i64>, Seq<char>), Seq<char>>(
            "missing x-pumper-signature"@,
        ) <==> h.pumper_signature is None && h.hub_signature is None,
        h.timestamp is None && (h.pumper_signature is Some || h.hub_signature is Some)
            ==> claim_of(h, now, max_skew) is Ok,
        claim_of(h, now, max_skew) matches Ok(c) ==> match (h.pumper_signature, h.hub_signature) {
            (Some(s), _) => digest_in(trimmed(s@), c.0),
            (None, Some(s)) => digest_in(trimmed(s@), c.0),
            (None, None) => false,
        },
        claim_of(h, now, max_skew) matches Ok(c) ==> match h.delivery_id {
            Some(d) => c.2 == trimmed(d@),
            None => c.2.len() == 0,
        },
{
    reveal_strlit("missing x-pumper-signature");
    reveal_strlit("invalid x-pumper-timestamp");
    reveal_strlit("timestamp outside the accepted skew window");
    reveal_strlit("");
    assert("missing x-pumper-signature"@[0] == 'm');
    assert("invalid x-pumper-timestamp"@[0] == 'i');
    assert("timestamp outside the accepted skew window"@[0] == 't');
    if let Some(s) = signature_header(h) {
        let bare = bare_signature(s);
        let prefix = "sha256="@;
        if begins(s, prefix) {
            assert(s =~= prefix + bare);
        } else {
            assert forall|rest: Seq<char>| s != #[trigger] (prefix + rest) by {
                assert((prefix + rest).take(prefix.len() as int) =~= prefix);
            }
        }
    }
}

/// A timestamp is believed only where it reads as an integer within the skew,
/// before or after; a request that sent none is not judged by it.
pub proof fn law_a_stale_timestamp_is_refused(h: SignatureHeaders, now: i64, max_skew: i64)
    requires
        h.pumper_signature is Some || h.hub_signature is Some,
    ensures
        match h.timestamp {
            None => claim_of(h, now, max_skew) matches Ok(c) && c.1 is None,
            Some(raw) => match i64_of(trimmed(raw@)) {
                None => claim_of(h, now, max_skew) == Err::<
                    (Seq<char>, Option<i64>, Seq<char>),
                    Seq<char>,
                >("invalid x-pumper-timestamp"@),
                Some(ts) => if now - max_skew <= ts <= now + max_skew {
                    claim_of(h, now, max_skew) matches Ok(c) && c.1 == Some(ts)
                } else {
                    claim_of(h, now, max_skew) == Err::<
                        (Seq<char>, Option<i64>, Seq<char>),
                        Seq<char>,
                    >("timestamp outside the accepted skew window"@)
                },
            },
        },
{
}

fn trimmed_header(h: &Option<String>) -> (r: Option<String>)
    ensures
        match (r, header_text(*h)) {
            (Some(a), Some(b)) => a@ == b,
            (None, None) => true,
            _ => false,
        },
{
    match h {
        Some(s) => Some(trim(s.as_str())),
        None => None,
    }
}

fn strip_algorithm(sig: &str) -> (r: String)
    ensures
        r@ == bare_signature(sig@),
{
    let cs = chars(sig);
    if starts_with(&cs, "sha256=") {
        proof {
            reveal_strlit("sha256=");
        }
        assert(cs@.subrange(7, cs@.len() as int) =~= cs@.skip(7));
        string_of(slice_subrange(&cs, 7, cs.len()))
    } else {
        owned(sig)
    }
}

/// Reads the signature headers. The skew gate stands before the signature: a
/// stale but correctly signed capture is exactly what it exists to stop.
pub fn read_claim(headers: &SignatureHeaders, now: i64, max_skew: i64) -> (r: Result<
    Claim,
    ApiError,
>)
    ensures
        match r {
            Ok(c) => claim_of(*headers, now, max_skew) == Ok::<
                (Seq<char>, Option<i64>, Seq<char>),
                Seq<char>,
            >((c.signature@, c.timestamp, c.delivery_id@)),
            Err(e) => e.status == 401 && claim_of(*headers, now, max_skew) == Err::<
                (Seq<char>, Option<i64>, Seq<char>),
                Seq<char>,
            >(e.message@),
        },
        headers.pumper_signature is None && headers.hub_signature is None <==> (r matches Err(e)
            && e.message@ == "missing x-pumper-signature"@),
        headers.timestamp is None && (headers.pumper_signature is Some
            || headers.hub_signature is Some) ==> r is Ok,
        r matches Ok(c) ==> match (headers.pumper_signature, headers.hub_signature) {
            (Some(s), _) => digest_in(trimmed(s@), c.signature@),
            (None, Some(s)) => digest_in(trimmed(s@), c.signature@),
            (None, None) => false,
        },
{
    proof {
        law_either_signature_header_will_do(*headers, now, max_skew);
    }
    let own = trimmed_header(&headers.pumper_signature);
    let sig = match own {
        Some(s) => s,
        None => match trimmed_header(&headers.hub_signature) {
            Some(s) => s,
            None => {
                return Err(ApiError::fixed(UNAUTHORIZED, "missing x-pumper-signature"));
            },
        },
    };
    let signature = strip_algorithm(sig.as_str());
    let delivery_id = match trimmed_header(&headers.delivery_id) {
        Some(d) => d,
        None => owned(""),
    };
    match trimmed_header(&headers.timestamp) {
        None => Ok(Claim { signature, timestamp: None, delivery_id }),
        Some(raw) => match parse_i64(raw.as_str()) {
            None => Err(ApiError::fixed(UNAUTHORIZED, "invalid x-pumper-timestamp")),
            Some(ts) => {
                let apart: i128 = if now >= ts {
                    now as i128 - ts as i128
                } else {
                    ts as i128 - now as i128
                };
                if apart > max_skew as i128 {
                    Err(
                        ApiError::fixed(
                            UNAUTHORIZED,
                            "timestamp outside the accepted skew window",
                        ),
                    )
                } else {
                    Ok(Claim { signature, timestamp: Some(ts), delivery_id })
                }
            },
        },
    }
}

/// The refusal of an exhausted bucket.
pub open spec fn rate_message(per_min: u32) -> Seq<char> {
    "rate limit exceeded ("@ + decimal(per_min as int) + " events/min per source)"@
}

/// The refusal of an oversized body.
pub open spec fn size_message(max: usize) -> Seq<char> {
    "body exceeds [ingress] max_body_bytes ("@ + decimal(max as int) + ")"@
}

/// What the third to sixth gates say.
pub open spec fn claimed(
    source: IngressSource,
    allowed: bool,
    cfg: IngressConfig,
    body_len: nat,
    headers: SignatureHeaders,
    now: i64,
    r: Ingest,
) -> bool {
    if !allowed {
        r.refuses(429, rate_message(cfg.rate_limit_per_min))
    } else if body_len > cfg.max_body_bytes {
        r.refuses(413, size_message(cfg.max_body_bytes))
    } else {
        match claim_of(headers, now, cfg.max_skew_secs) {
            Err(m) => r.refuses(401, m),
            Ok((signature, timestamp, delivery)) => {
                &&& r matches Ingest::NeedVerification(s, c)
                &&& s == source
                &&& c.signature@ == signature && c.timestamp == timestamp && c.delivery_id@
                    == delivery
            },
        }
    }
}

/// What is verified is the claim the request's own headers make, for the source it
/// came to.
pub proof fn law_the_claim_verified_is_the_one_sent(
    source: IngressSource,
    allowed: bool,
    cfg: IngressConfig,
    body_len: nat,
    headers: SignatureHeaders,
    now: i64,
    r: Ingest,
)
    requires
        claimed(source, allowed, cfg, body_len, headers, now, r),
    ensures
        r matches Ingest::NeedVerification(s, c) ==> s == source && claim_of(
            headers,
            now,
            cfg.max_skew_secs,
        ) == Ok::<(Seq<char>, Option<i64>, Seq<char>), Seq<char>>(
            (c.signature@, c.timestamp, c.delivery_id@),
        ),
        r is NeedVerification <==> allowed && body_len <= cfg.max_body_bytes && claim_of(
            headers,
            now,
            cfg.max_skew_secs,
        ) is Ok,
{
}

/// The third to sixth gates, in order of cost: the bucket, the size, the
/// signature's presence and the timestamp's skew.
pub fn ingest_with_token(
    source: IngressSource,
    allowed: bool,
    cfg: &IngressConfig,
    body_len: usize,
    headers: &SignatureHeaders,
    now: i64,
) -> (r: Ingest)
    ensures
        claimed(source, allowed, *cfg, body_len as nat, *headers, now, r),
{
    if !allowed {
        let mut m = owned("rate limit exceeded (");
        push_u64(&mut m, cfg.rate_limit_per_min as u64);
        m.append(" events/min per source)");
        return Ingest::Refused(ApiError::new(TOO_MANY_REQUESTS, m));
    }
    if body_len > cfg.max_body_bytes {
        let mut m = owned("body exceeds [ingress] max_body_bytes (");
        push_u64(&mut m, cfg.max_body_bytes as u64);
        m.append(")");
        return Ingest::Refused(ApiError::new(PAYLOAD_TOO_LARGE, m));
    }
    match read_claim(headers, now, cfg.max_skew_secs) {
        Ok(claim) => Ingest::NeedVerification(source, claim),
        Err(e) => Ingest::Refused(e),
    }
}

/// Why a byte string is not JSON; `None` for one that is.
pub uninterp spec fn json_fault_of(body: Seq<u8>) -> Option<Seq<char>>;

/// `serde_json::from_slice` into a JSON value, reduced to its displayed error.
/// The result depends on the bytes alone.
#[verifier::external_body]
fn json_fault(body: &[u8]) -> (r: Option<String>)
    ensures
        match r {
            Some(m) => json_fault_of(body@) == Some(m@),
            None => json_fault_of(body@) is None,
        },
{
    serde_json::from_slice::<serde_json::Value>(body).err().map(|e| e.to_string())
}

/// The identifier derived from a source and a delivery id that is no UUID.
pub open spec fn derived_id(source_id: Seq<char>, delivery_id: Seq<char>) -> Seq<u8> {
    sha256_of(encode_utf8(source_id + ":"@ + delivery_id)).take(16)
}

/// Deterministic event id for a delivery id that is no UUID: the first sixteen
/// bytes of SHA-256 over `source:delivery`. Redeliveries get the same one.
pub fn derived_event_id(source_id: &str, delivery_id: &str) -> (r: [u8; 16])
    ensures
        r@ == derived_id(source_id@, delivery_id@),
{
    let mut text = owned(source_id);
    text.append(":");
    text.append(delivery_id);
    let d = sha256(text.as_str().as_bytes());
    let r: [u8; 16] = [
        d[0], d[1], d[2], d[3], d[4], d[5], d[6], d[7],
        d[8], d[9], d[10], d[11], d[12], d[13], d[14], d[15],
    ];
    assert(r@ =~= derived_id(source_id@, delivery_id@));
    r
}

/// The id of an event, given what the delivery id reads as and a fresh id: the
/// sender's own when it is a UUID, a derived one when it is other text, the fresh
/// one when the sender gave none.
pub fn event_id_of(
    reading: Option<[u8; 16]>,
    source_id: &str,
    delivery_id: &str,
    fresh: [u8; 16],
) -> (r: [u8; 16])
    ensures
        match reading {
            Some(id) => r == id,
            None => if delivery_id@.len() == 0 {
                r == fresh
            } else {
                r@ == derived_id(source_id@, delivery_id@)
            },
        },
{
    match reading {
        Some(id) => id,
        None => if delivery_id.is_empty() {
            fresh
        } else {
            derived_event_id(source_id, delivery_id)
        },
    }
}

/// The refusal of a body that is no JSON.
pub open spec fn not_json_message(fault: Seq<char>) -> Seq<char> {
    "body is not JSON: "@ + fault
}

/// The last gates, given what is wrong with the body as JSON, what the delivery
/// id reads as and a fresh id.
pub fn ingest_accept(
    source: IngressSource,
    claim: &Claim,
    verified: bool,
    fault: Option<String>,
    reading: Option<[u8; 16]>,
    fresh: [u8; 16],
) -> (r: Ingest)
    ensures
        if !verified {
            r.refuses(401, "signature verification failed"@)
        } else {
            match fault {
                Some(m) => r.refuses(400, not_json_message(m@)),
                None => {
                    &&& r matches Ingest::Emit(s, id)
                    &&& s == source
                    &&& match reading {
                        Some(own) => id == own,
                        None => if claim.delivery_id@.len() == 0 {
                            id == fresh
                        } else {
                            id@ == derived_id(source.id@, claim.delivery_id@)
                        },
                    }
                },
            }
        },
{
    if !verified {
        return refused(UNAUTHORIZED, "signature verification failed");
    }
    if let Some(m) = fault {
        let mut text = owned("body is not JSON: ");
        text.append(m.as_str());
        return Ingest::Refused(ApiError::new(BAD_REQUEST, text));
    }
    let id = event_id_of(reading, source.id.as_str(), claim.delivery_id.as_str(), fresh);
    Ingest::Emit(source, id)
}

/// The event id that a source and a delivery id fix, when they fix one.
pub open spec fn fixed_event_id(source_id: Seq<char>, delivery_id: Seq<char>) -> Option<Seq<u8>> {
    match uuid_reading(delivery_id) {
        Some(own) => Some(own),
        None => if delivery_id.len() == 0 {
            None
        } else {
            Some(derived_id(source_id, delivery_id))
        },
    }
}

/// What the last gates say.
pub open spec fn admitted(
    source: IngressSource,
    claim: Claim,
    verified: bool,
    body: Seq<u8>,
    r: Ingest,
) -> bool {
    if !verified {
        r.refuses(401, "signature verification failed"@)
    } else {
        match json_fault_of(body) {
            Some(m) => r.refuses(400, not_json_message(m)),
            None => {
                &&& r matches Ingest::Emit(s, id)
                &&& s == source
                &&& match fixed_event_id(source.id@, claim.delivery_id@) {
                    Some(fixed) => id@ == fixed,
                    None => id@[6] / 16 == 4 && id@[8] / 64 == 2,
                }
            },
        }
    }
}

/// The last gates: the signature must hold and the body must be JSON; then the
/// event gets its id. A delivery id that was sent fixes it, so that a redelivered
/// webhook verifies again but cannot fire twice.
pub fn ingest_with_verification(
    source: IngressSource,
    claim: &Claim,
    verified: bool,
    body: &[u8],
) -> (r: Ingest)
    ensures
        admitted(source, *claim, verified, body@, r),
{
    let fault = json_fault(body);
    let reading = read_uuid(claim.delivery_id.as_str());
    ingest_accept(source, claim, verified, fault, reading, fresh_uuid())
}

/// The answers of the gates to one request, in order.
pub struct IngestRun {
    pub begin: Ingest,
    pub with_source: Ingest,
    pub with_token: Ingest,
    pub end: Ingest,
}

/// Whether these are the gates' answers to a request, each gate taking over where
/// the one before it let the request through.
pub open spec fn ran(
    run: IngestRun,
    cfg: IngressConfig,
    source: Option<IngressSource>,
    allowed: bool,
    headers: SignatureHeaders,
    now: i64,
    verified: bool,
    body: Seq<u8>,
) -> bool {
    &&& begun(cfg, run.begin)
    &&& match run.begin {
        Ingest::NeedSource => sourced(source, run.with_source),
        _ => run.with_source == run.begin,
    }
    &&& match run.with_source {
        Ingest::NeedToken(s) => claimed(s, allowed, cfg, body.len(), headers, now, run.with_token),
        _ => run.with_token == run.with_source,
    }
    &&& match run.with_token {
        Ingest::NeedVerification(s, c) => admitted(s, c, verified, body, run.end),
        _ => run.end == run.with_token,
    }
}

/// An event reaches the bus exactly when ingress is on, its source exists and is
/// enabled, the bucket has a token, the body is small enough, the headers hold a
/// claim whose timestamp is not stale, the signature verifies and the body is
/// JSON. Whatever else comes in is refused.
pub proof fn law_only_verified_events_are_emitted(
    run: IngestRun,
    cfg: IngressConfig,
    source: Option<IngressSource>,
    allowed: bool,
    headers: SignatureHeaders,
    now: i64,
    verified: bool,
    body: Seq<u8>,
)
    requires
        ran(run, cfg, source, allowed, headers, now, verified, body),
    ensures
        run.end is Emit || run.end is Refused,
        run.end is Emit <==> {
            &&& cfg.enabled
            &&& source matches Some(s) && s.enabled
            &&& allowed
            &&& body.len() <= cfg.max_body_bytes
            &&& claim_of(headers, now, cfg.max_skew_secs) is Ok
            &&& verified
            &&& json_fault_of(body) is None
        },
        run.end matches Ingest::Emit(s, _) ==> source == Some(s),
{
}

/// Two requests of one source that carry the same delivery id are emitted under
/// the same event id, whatever else differs between them.
pub proof fn law_redelivery_keeps_the_event_id(
    source: IngressSource,
    a: Claim,
    b: Claim,
    body_a: Seq<u8>,
    body_b: Seq<u8>,
    first: Ingest,
    second: Ingest,
)
    requires
        a.delivery_id@ == b.delivery_id@,
        a.delivery_id@.len() > 0,
        admitted(source, a, true, body_a, first),
        admitted(source, b, true, body_b, second),
        first is Emit,
        second is Emit,
    ensures
        first->Emit_1@ == second->Emit_1@,
{
}

/// The gates stand in order: an event is refused by the first it fails, whatever
/// the later ones would say.
pub proof fn law_the_first_failed_gate_answers(
    run: IngestRun,
    cfg: IngressConfig,
    source: Option<IngressSource>,
    allowed: bool,
    headers: SignatureHeaders,
    now: i64,
    verified: bool,
    body: Seq<u8>,
)
    requires
        ran(run, cfg, source, allowed, headers, now, verified, body),
    ensures
        run.end matches Ingest::Refused(e) ==> e.status == if !cfg.enabled {
            409u16
        } else if source is None {
            404u16
        } else if !source->0.enabled {
            403u16
        } else if !allowed {
            429u16
        } else if body.len() > cfg.max_body_bytes {
            413u16
        } else if claim_of(headers, now, cfg.max_skew_secs) is Err || !verified {
            401u16
        } else {
            400u16
        },
{
}

/// The id an event goes by: the delivery's own where it reads as a UUID, one that
/// the source and the delivery give where it is any other text, and a fresh one
/// where none was sent.
pub proof fn law_an_event_goes_by_its_delivery(source_id: Seq<char>, delivery_id: Seq<char>)
    ensures
        uuid_reading(delivery_id) is Some ==> fixed_event_id(source_id, delivery_id)
            == uuid_reading(delivery_id),
        uuid_reading(delivery_id) is None && delivery_id.len() > 0 ==> fixed_event_id(
            source_id,
            delivery_id,
        ) == Some(sha256_of(encode_utf8(source_id + ":"@ + delivery_id)).take(16)),
        uuid_reading(delivery_id) is None && delivery_id.len() == 0 ==> fixed_event_id(
            source_id,
            delivery_id,
        ) is None,
{
}

/// The answer to an event that was emitted.
pub fn ingest_answer(event_id: &[u8; 16], seq: u64, triggers_fired: u64) -> (r: Json)
    ensures
        r@ == JsonModel::object().put("event_id"@, JsonModel::Text(uuid_text(event_id@))).put(
            "seq"@,
            JsonModel::integer(seq as int),
        ).put("triggers_fired"@, JsonModel::integer(triggers_fired as int)),
{
    let mut out = Json::object();
    out.set("event_id", Json::text(show_uuid(event_id).as_str()));
    out.set("seq", Json::unsigned(seq));
    out.set("triggers_fired", Json::unsigned(triggers_fired));
    out
}

/// What a new source is stored with: its trimmed name and its secret.
pub fn new_ingress_source(name: &str, secret: Option<String>, generated: String) -> (r: Result<
    (String, String),
    ApiError,
>)
    ensures
        if trimmed(name@).len() == 0 {
            r matches Err(e) && e@ == (400u16, "name is required"@)
        } else {
            match secret {
                Some(s) => if trimmed(s@).len() == 0 {
                    r matches Err(e) && e@ == (400u16, "secret must be non-empty when supplied"@)
                } else {
                    r matches Ok((n, kept)) && n@ == trimmed(name@) && kept == s
                },
                None => r matches Ok((n, kept)) && n@ == trimmed(name@) && kept == generated,
            }
        },
{
    let name = trim(name);
    if name.as_str().is_empty() {
        return Err(ApiError::fixed(BAD_REQUEST, "name is required"));
    }
    match secret {
        Some(s) => if trim(s.as_str()).as_str().is_empty() {
            Err(ApiError::fixed(BAD_REQUEST, "secret must be non-empty when supplied"))
        } else {
            Ok((name, s))
        },
        None => Ok((name, generated)),
    }
}

/// The name and secret a new source is stored with. A source always has a
/// secret: the caller's, or sixty-four random hexadecimal digits.
pub fn create_ingress_source(name: &str, secret: Option<String>) -> (r: Result<
    (String, String),
    ApiError,
>)
    ensures
        if trimmed(name@).len() == 0 {
            r matches Err(e) && e@ == (400u16, "name is required"@)
        } else {
            match secret {
                Some(s) => if trimmed(s@).len() == 0 {
                    r matches Err(e) && e@ == (400u16, "secret must be non-empty when supplied"@)
                } else {
                    r matches Ok((n, kept)) && n@ == trimmed(name@) && kept == s
                },
                None => {
                    &&& r matches Ok((n, kept))
                    &&& n@ == trimmed(name@)
                    &&& exists|a: [u8; 16], b: [u8; 16]|
                        kept@ == #[trigger] hex_of(a@) + #[trigger] hex_of(b@) && a@[6] / 16 == 4
                            && a@[8] / 64 == 2 && b@[6] / 16 == 4 && b@[8] / 64 == 2
                },
            }
        },
{
    let a = fresh_uuid();
    let b = fresh_uuid();
    let mut generated = hex(&a);
    generated.append(hex(&b).as_str());
    new_ingress_source(name, secret, generated)
}

} // verus!
