//! The Prometheus exposition: one renderer per block, and the `/metrics` body
//! that joins them. Every series is emitted even at zero — an absent series and
//! a zero series are different answers.

use vstd::prelude::*;

use crate::clock::{age_of, age_seconds, Instant};
use crate::mesh::{mesh_metrics_lines, mesh_text, MeshTotals};
use crate::number::{
    decimal, digit, is_digit, only_digits, push_u64, show_i64, show_u64, value,
};
use crate::text::{begins, owned, same};

verus! {

pub const HELP_JOBS: &'static str =
    "Jobs by status";

pub const HELP_JOB_FAILURES_TOTAL: &'static str =
    "Permanently-failed jobs by app (DB-derived count)";

pub const HELP_JOB_DURATION_SECONDS: &'static str =
    "Job execution time (started -> finished)";

pub const HELP_JOB_DURATION_SECONDS_MAX: &'static str =
    "Longest job execution time";

pub const HELP_JOB_QUEUE_WAIT_SECONDS: &'static str =
    "Queue wait (created -> started)";

pub const HELP_JOB_QUEUE_WAIT_SECONDS_MAX: &'static str =
    "Longest queue wait";

pub const HELP_COST_USD: &'static str =
    "Total engine spend by app";

pub const HELP_APPS: &'static str =
    "Registered apps (ready = all preconditions satisfied)";

pub const HELP_SCHEDULES: &'static str =
    "Configured schedules";

pub const HELP_REMOTE_EGRESS_FETCHES: &'static str =
    "Live-HTTP-tier fetches by who egressed them: peer = served by a remote fabric node, local_fallback = egressed from this coordinator despite the fabric being configured";

pub const HELP_CHECKPOINT_FAILURES_TOTAL: &'static str =
    "Checkpoint saves that did not land, by reason: storage_error = the write failed, so the run has no durable state of its own; stale_lineage = another attempt owns the job and this save was discarded. Process-lifetime, reset on restart";

pub const HELP_JOBS_OLDEST_QUEUED_AGE_SECONDS: &'static str =
    "Age of the oldest queued job (created -> now; 0 when nothing is queued). The complement of pumper_jobs{status}: depth says how much is waiting, this says whether it is moving";

pub const HELP_JOBS_OLDEST_RUNNING_AGE_SECONDS: &'static str =
    "Age of the oldest running job (started -> now; 0 when nothing is running). A rising value with a flat job count is a run that has stopped finishing";

pub const HELP_STORE_BYTES: &'static str =
    "Database size on disk by part: main = page_count x page_size (pages ALLOCATED, not bytes in live rows); free = freelist pages, i.e. space already recycled inside the file and never returned to the filesystem; wal = the -wal sidecar, which holds commits not yet folded into the main file";

pub const HELP_STORE_PAGES: &'static str =
    "Database pages by kind: total = page_count, free = freelist_count. The ratio is what says whether reclamation would pay";

pub const HELP_STORE_PAGE_SIZE_BYTES: &'static str =
    "SQLite page size, the multiplier behind pumper_store_bytes";

pub const HELP_STORE_MAINTENANCE_PASSES_TOTAL: &'static str =
    "Maintenance passes by task and outcome: ran = the pass executed (work=0 is still a run), deferred = the activity gate said the application was busy and no escalation rung applied, failed = it was attempted and errored. Process-lifetime, reset on restart";

pub const HELP_WEBHOOK_DELIVERIES: &'static str =
    "Webhook deliveries by status: pending = in flight, failed = still on the retry ladder, dead = dead-letter queue, delivered = accepted";

pub const HELP_WEBHOOK_OLDEST_UNDELIVERED_SECONDS: &'static str =
    "Age of the oldest delivery the receiver has not accepted (pending + failed; 0 when none). Excludes dead, which is terminal and would pin this gauge forever";

pub const HELP_WEBHOOK_DELIVERY_ATTEMPTS_TOTAL: &'static str =
    "Send attempts across the delivery log, retries included (DB-derived, so retention pruning can lower it)";

pub const HELP_WEBHOOK_DELIVERIES_SUCCEEDED_TOTAL: &'static str =
    "Deliveries the receiver accepted — one per delivered row, its final attempt being the successful one (DB-derived)";

pub const HELP_STORE_OPS_TOTAL: &'static str =
    "Measured store operations by family, the table it touches, and phase (acquire = waiting for a pooled connection, execute = running the statements). Process-lifetime, reset on restart. A PARTIAL census: only the families listed in the op label are instrumented — schedules, watches, triggers, deliveries and the caches are not measured at all";

pub const HELP_STORE_SLOW_OPS_TOTAL: &'static str =
    "Operations at or past this key's slow line, which is published as pumper_store_slow_line_seconds on the SAME labels — the count means nothing without it. Process-lifetime; the matching log lines are rate-limited per key, this count is not";

pub const HELP_STORE_SLOW_LINE_SECONDS: &'static str =
    "The predicate behind pumper_store_slow_ops_total: the duration at which one operation of this family counts as slow. Calibrated for a LOCAL store (an embedded read is microseconds-to-low-milliseconds), not for a networked one";

pub const HELP_STORE_BUSY_TOTAL: &'static str =
    "Operations that ended in SQLITE_BUSY / SQLITE_LOCKED, or in a pool timeout on the acquire phase. Classified by the driver's result code, never by message text. Separates contention (indicts pool sizing or a writer-hog) from engine work (indicts the query plan). Process-lifetime";

pub const HELP_STORE_ERRORS_TOTAL: &'static str =
    "Operations that failed for any reason other than contention. Process-lifetime";

pub const HELP_STORE_ROWS_TOTAL: &'static str =
    "Rows touched, summed over this key's operations. Separates 'the query got slower' from 'the table got bigger' — the remedy for one is an index, for the other a retention policy. Acquire-phase keys touch no rows and read 0. Process-lifetime";

pub const HELP_STORE_DURATION_P95_SECONDS: &'static str =
    "Nearest-rank p95 over this key's window: sort the last N recorded durations ascending and take element ceil(0.95*n) — an OBSERVED sample, never an interpolation. N is pumper_store_window_samples; read it beside this figure";

pub const HELP_STORE_WINDOW_SAMPLES: &'static str =
    "Records currently in this key's window (at most 256). The n behind the p95: a p95 over 7 samples is the 7th sample";

pub const HELP_STORE_WINDOW_SECONDS: &'static str =
    "Wall-clock span the current window covers, whole seconds. 0 means the whole window happened inside one second, not that there is no window — read it with pumper_store_window_samples. After a burst the window may cover ninety seconds; after a quiet night, nine hours";

pub const HELP_STORE_OP_WORST_SECONDS: &'static str =
    "Worst single duration observed for this key since process start. A LIFETIME fact kept outside the window on purpose: 'worst ever' must not evaporate when the ring wraps";

/// The two lines that declare a metric.
pub open spec fn declared(name: Seq<char>, kind: Seq<char>, help: Seq<char>) -> Seq<char> {
    "# HELP "@ + name + " "@ + help + "\n# TYPE "@ + name + " "@ + kind + "\n"@
}

/// A sample without labels.
pub open spec fn plain(name: Seq<char>, value: Seq<char>) -> Seq<char> {
    name + " "@ + value + "\n"@
}

/// A sample with one label.
pub open spec fn labelled(
    name: Seq<char>,
    label: Seq<char>,
    label_value: Seq<char>,
    value: Seq<char>,
) -> Seq<char> {
    name + "{"@ + label + "=\""@ + label_value + "\"} "@ + value + "\n"@
}

/// A sample with two labels.
pub open spec fn labelled_twice(
    name: Seq<char>,
    first: (Seq<char>, Seq<char>),
    second: (Seq<char>, Seq<char>),
    value: Seq<char>,
) -> Seq<char> {
    name + "{"@ + first.0 + "=\""@ + first.1 + "\","@ + second.0 + "=\""@ + second.1 + "\"} "@
        + value + "\n"@
}

/// Appends the declaration of a metric.
pub fn declare(out: &mut String, name: &str, kind: &str, help: &str)
    ensures
        final(out)@ == old(out)@ + declared(name@, kind@, help@),
{
    let mut line = owned("# HELP ");
    line.append(name);
    line.append(" ");
    line.append(help);
    line.append("\n# TYPE ");
    line.append(name);
    line.append(" ");
    line.append(kind);
    line.append("\n");
    out.append(line.as_str());
}

/// Appends a sample without labels.
pub fn push_plain(out: &mut String, name: &str, value: &str)
    ensures
        final(out)@ == old(out)@ + plain(name@, value@),
{
    let mut line = owned(name);
    line.append(" ");
    line.append(value);
    line.append("\n");
    out.append(line.as_str());
}

/// Appends a sample with one label.
pub fn push_labelled(out: &mut String, name: &str, label: &str, label_value: &str, value: &str)
    ensures
        final(out)@ == old(out)@ + labelled(name@, label@, label_value@, value@),
{
    let mut line = owned(name);
    line.append("{");
    line.append(label);
    line.append("=\"");
    line.append(label_value);
    line.append("\"} ");
    line.append(value);
    line.append("\n");
    out.append(line.as_str());
}

/// Appends a sample with two labels.
pub fn push_labelled_twice(
    out: &mut String,
    name: &str,
    first: (&str, &str),
    second: (&str, &str),
    value: &str,
)
    ensures
        final(out)@ == old(out)@ + labelled_twice(
            name@,
            (first.0@, first.1@),
            (second.0@, second.1@),
            value@,
        ),
{
    let mut line = owned(name);
    line.append("{");
    line.append(first.0);
    line.append("=\"");
    line.append(first.1);
    line.append("\",");
    line.append(second.0);
    line.append("=\"");
    line.append(second.1);
    line.append("\"} ");
    line.append(value);
    line.append("\n");
    out.append(line.as_str());
}

/// `n` in exactly `width` decimal digits, the low ones.
pub open spec fn padded(n: nat, width: nat) -> Seq<char>
    decreases width,
{
    if width == 0 {
        Seq::empty()
    } else {
        padded(n / 10, (width - 1) as nat).push(digit(n % 10))
    }
}

fn push_padded(out: &mut String, n: u64, width: u8)
    ensures
        final(out)@ == old(out)@ + padded(n as nat, width as nat),
    decreases width,
{
    let ghost before = out@;
    if width > 0 {
        push_padded(out, n / 10, width - 1);
        let d: u8 = (n % 10) as u8;
        out.push((48 + d) as char);
    }
    assert(out@ =~= before + padded(n as nat, width as nat));
}

/// Ten to a power.
pub open spec fn tens(width: nat) -> nat
    decreases width,
{
    if width == 0 {
        1
    } else {
        10 * tens((width - 1) as nat)
    }
}

/// Padding gives a number as many digits as asked for, and they spell it where it
/// has no more.
pub proof fn law_padding_keeps_the_number(n: nat, width: nat)
    ensures
        padded(n, width).len() == width,
        only_digits(padded(n, width)),
        n < tens(width) ==> value(padded(n, width)) == n,
    decreases width,
{
    if width > 0 {
        let less = (width - 1) as nat;
        law_padding_keeps_the_number(n / 10, less);
        let front = padded(n / 10, less);
        let last = digit(n % 10);
        assert(is_digit(last) && last as nat - 48 == n % 10);
        assert(front.push(last).drop_last() =~= front);
        assert forall|i: int| 0 <= i < width implies is_digit(#[trigger] front.push(last)[i]) by {
            if i < less {
                assert(is_digit(front[i]));
            }
        }
    }
}

/// A microsecond figure as seconds with six decimals.
pub open spec fn seconds_text(micros: nat) -> Seq<char> {
    decimal((micros / 1_000_000) as int) + seq!['.'] + padded(micros % 1_000_000, 6)
}

/// Formats a microsecond figure as Prometheus seconds.
pub fn secs(micros: u64) -> (r: String)
    ensures
        r@ == seconds_text(micros as nat),
{
    let mut out = show_u64(micros / 1_000_000);
    out.push('.');
    push_padded(&mut out, micros % 1_000_000, 6);
    assert(out@ =~= seconds_text(micros as nat));
    out
}

/// Seconds are written with their whole part, a point, and all six digits of their
/// millionths.
pub proof fn law_seconds_are_written_to_the_microsecond(micros: nat)
    ensures
        ({
            let whole = decimal((micros / 1_000_000) as int);
            let text = seconds_text(micros);
            &&& text.len() == whole.len() + 7
            &&& text.take(whole.len() as int) == whole
            &&& text[whole.len() as int] == '.'
            &&& value(text.skip(whole.len() as int + 1)) == micros % 1_000_000
        }),
{
    let whole = decimal((micros / 1_000_000) as int);
    let part = padded(micros % 1_000_000, 6);
    reveal_with_fuel(tens, 7);
    assert(tens(6) == 1_000_000);
    law_padding_keeps_the_number(micros % 1_000_000, 6);
    assert(seconds_text(micros).take(whole.len() as int) =~= whole);
    assert(seconds_text(micros).skip(whole.len() as int + 1) =~= part);
}

/// Live fetches by who egressed them.
#[derive(Debug, Clone, Copy, PartialEq, Eq)]
pub struct EgressCounters {
    pub peer_served: u64,
    pub local_fallback: u64,
}

/// The egress block.
pub open spec fn egress_text(c: EgressCounters) -> Seq<char> {
    Seq::<char>::empty()
        + declared("pumper_remote_egress_fetches"@, "counter"@, HELP_REMOTE_EGRESS_FETCHES@)
        + labelled("pumper_remote_egress_fetches"@, "served_by"@, "peer"@, decimal(c.peer_served as int))
        + labelled("pumper_remote_egress_fetches"@, "served_by"@, "local_fallback"@, decimal(c.local_fallback as int))
}

/// The remote fetch fabric's egress split. `local_fallback` counts what left from
/// this coordinator's own address although the fabric is configured.
pub fn egress_metrics(counters: &EgressCounters) -> (r: String)
    ensures
        r@ == egress_text(*counters),
{
    let mut out = String::new();
    declare(&mut out, "pumper_remote_egress_fetches", "counter", HELP_REMOTE_EGRESS_FETCHES);
    push_labelled(&mut out, "pumper_remote_egress_fetches", "served_by", "peer", show_u64(counters.peer_served).as_str());
    push_labelled(&mut out, "pumper_remote_egress_fetches", "served_by", "local_fallback", show_u64(counters.local_fallback).as_str());
    out
}

/// Checkpoint saves that did not land, by reason.
#[derive(Debug, Clone, Copy, PartialEq, Eq)]
pub struct CheckpointFailures {
    pub stale_lineage: u64,
    pub storage_error: u64,
}

impl Default for CheckpointFailures {
    fn default() -> (r: CheckpointFailures)
        ensures
            r.stale_lineage == 0,
            r.storage_error == 0,
    {
        CheckpointFailures { stale_lineage: 0, storage_error: 0 }
    }
}

/// The checkpoint block.
pub open spec fn checkpoint_text(f: CheckpointFailures) -> Seq<char> {
    Seq::<char>::empty()
        + declared("pumper_checkpoint_failures_total"@, "counter"@, HELP_CHECKPOINT_FAILURES_TOTAL@)
        + labelled("pumper_checkpoint_failures_total"@, "reason"@, "stale_lineage"@, decimal(f.stale_lineage as int))
        + labelled("pumper_checkpoint_failures_total"@, "reason"@, "storage_error"@, decimal(f.storage_error as int))
}

/// Checkpoint saves that did not land: is anything resuming from nothing?
pub fn checkpoint_metrics(failures: CheckpointFailures) -> (r: String)
    ensures
        r@ == checkpoint_text(failures),
{
    let mut out = String::new();
    declare(&mut out, "pumper_checkpoint_failures_total", "counter", HELP_CHECKPOINT_FAILURES_TOTAL);
    push_labelled(&mut out, "pumper_checkpoint_failures_total", "reason", "stale_lineage", show_u64(failures.stale_lineage).as_str());
    push_labelled(&mut out, "pumper_checkpoint_failures_total", "reason", "storage_error", show_u64(failures.storage_error).as_str());
    out
}

/// The declaration of the claim-failure counter and the start of its sample.
pub const CLAIM_FAILURES_HEAD: &'static str =
    "# HELP pumper_worker_claim_failures_total Job-claim attempts that failed (store          unreachable or erroring). Process-lifetime, reset on restart. The matching log lines are          rate-limited; this count is not\n         # TYPE pumper_worker_claim_failures_total counter\n         pumper_worker_claim_failures_total ";

/// Failed job-claim attempts over the life of the process. The log lines are
/// rate-limited; this count is not.
pub fn claim_failure_metrics(total: u64) -> (r: String)
    ensures
        r@ == CLAIM_FAILURES_HEAD@ + decimal(total as int) + "\n"@,
{
    let mut out = owned(CLAIM_FAILURES_HEAD);
    push_u64(&mut out, total);
    out.append("\n");
    out
}

/// Age of the oldest job in each waiting state, in seconds with three decimals.
#[derive(Debug, PartialEq)]
pub struct QueueAges {
    pub oldest_queued_secs: String,
    pub oldest_running_secs: String,
}

/// The queue-age block.
pub open spec fn queue_age_text(a: QueueAges) -> Seq<char> {
    Seq::<char>::empty()
        + declared("pumper_jobs_oldest_queued_age_seconds"@, "gauge"@, HELP_JOBS_OLDEST_QUEUED_AGE_SECONDS@)
        + plain("pumper_jobs_oldest_queued_age_seconds"@, a.oldest_queued_secs@)
        + declared("pumper_jobs_oldest_running_age_seconds"@, "gauge"@, HELP_JOBS_OLDEST_RUNNING_AGE_SECONDS@)
        + plain("pumper_jobs_oldest_running_age_seconds"@, a.oldest_running_secs@)
}

/// Age of the oldest job in each waiting state: a depth says how much is piled
/// up, these say whether the pile is moving.
pub fn queue_age_metrics(ages: &QueueAges) -> (r: String)
    ensures
        r@ == queue_age_text(*ages),
{
    let mut out = String::new();
    declare(&mut out, "pumper_jobs_oldest_queued_age_seconds", "gauge", HELP_JOBS_OLDEST_QUEUED_AGE_SECONDS);
    push_plain(&mut out, "pumper_jobs_oldest_queued_age_seconds", ages.oldest_queued_secs.as_str());
    declare(&mut out, "pumper_jobs_oldest_running_age_seconds", "gauge", HELP_JOBS_OLDEST_RUNNING_AGE_SECONDS);
    push_plain(&mut out, "pumper_jobs_oldest_running_age_seconds", ages.oldest_running_secs.as_str());
    out
}

/// What the store costs on disk.
#[derive(Debug, Clone, Copy, PartialEq, Eq)]
pub struct StoreSize {
    pub page_size: u64,
    pub page_count: u64,
    pub freelist_pages: u64,
    pub main_bytes: u64,
    pub free_bytes: u64,
    pub wal_bytes: u64,
}

impl Default for StoreSize {
    fn default() -> (r: StoreSize)
        ensures
            r.page_size == 0 && r.page_count == 0 && r.freelist_pages == 0,
            r.main_bytes == 0 && r.free_bytes == 0 && r.wal_bytes == 0,
    {
        StoreSize {
            page_size: 0,
            page_count: 0,
            freelist_pages: 0,
            main_bytes: 0,
            free_bytes: 0,
            wal_bytes: 0,
        }
    }
}

/// The store-size block.
pub open spec fn store_size_text(s: StoreSize) -> Seq<char> {
    Seq::<char>::empty()
        + declared("pumper_store_bytes"@, "gauge"@, HELP_STORE_BYTES@)
        + labelled("pumper_store_bytes"@, "part"@, "main"@, decimal(s.main_bytes as int))
        + labelled("pumper_store_bytes"@, "part"@, "free"@, decimal(s.free_bytes as int))
        + labelled("pumper_store_bytes"@, "part"@, "wal"@, decimal(s.wal_bytes as int))
        + declared("pumper_store_pages"@, "gauge"@, HELP_STORE_PAGES@)
        + labelled("pumper_store_pages"@, "kind"@, "total"@, decimal(s.page_count as int))
        + labelled("pumper_store_pages"@, "kind"@, "free"@, decimal(s.freelist_pages as int))
        + declared("pumper_store_page_size_bytes"@, "gauge"@, HELP_STORE_PAGE_SIZE_BYTES@)
        + plain("pumper_store_page_size_bytes"@, decimal(s.page_size as int))
}

/// What the store costs on disk: allocated pages, recycled pages and the
/// write-ahead sidecar are separate series because they answer separate questions.
pub fn store_size_metrics(size: &StoreSize) -> (r: String)
    ensures
        r@ == store_size_text(*size),
{
    let mut out = String::new();
    declare(&mut out, "pumper_store_bytes", "gauge", HELP_STORE_BYTES);
    push_labelled(&mut out, "pumper_store_bytes", "part", "main", show_u64(size.main_bytes).as_str());
    push_labelled(&mut out, "pumper_store_bytes", "part", "free", show_u64(size.free_bytes).as_str());
    push_labelled(&mut out, "pumper_store_bytes", "part", "wal", show_u64(size.wal_bytes).as_str());
    declare(&mut out, "pumper_store_pages", "gauge", HELP_STORE_PAGES);
    push_labelled(&mut out, "pumper_store_pages", "kind", "total", show_u64(size.page_count).as_str());
    push_labelled(&mut out, "pumper_store_pages", "kind", "free", show_u64(size.freelist_pages).as_str());
    declare(&mut out, "pumper_store_page_size_bytes", "gauge", HELP_STORE_PAGE_SIZE_BYTES);
    push_plain(&mut out, "pumper_store_page_size_bytes", show_u64(size.page_size).as_str());
    out
}

/// The declaration of the activity gauge.
pub const ACTIVITY_HEAD: &'static str =
    "# HELP pumper_store_activity_gauge In-flight foreground work: HTTP requests being          handled plus jobs currently running. The input to the quiet-window maintenance gate          — a pass runs only when this reads 0 and the minimum interval has elapsed\n         # TYPE pumper_store_activity_gauge gauge\n";

/// The declaration of the pool-saturation gauge.
pub const SATURATED_HEAD: &'static str =
    "# HELP pumper_store_pool_saturated 1 when the most recent connection acquisition on          any measured family waited past its slow line. Counts as busy for the maintenance          gate: a saturated pool is demand for the machine that the activity gauge cannot          see\n         # TYPE pumper_store_pool_saturated gauge\n";

/// The activity block.
pub open spec fn activity_text(reading: u64, pool_saturated: bool) -> Seq<char> {
    ACTIVITY_HEAD@ + plain("pumper_store_activity_gauge"@, decimal(reading as int))
        + SATURATED_HEAD@ + plain(
        "pumper_store_pool_saturated"@,
        decimal(
            if pool_saturated {
                1
            } else {
                0
            },
        ),
    )
}

/// The activity gauge the maintenance gate reads, and the pool saturation that
/// alone can hold maintenance off.
pub fn activity_metrics(reading: u64, pool_saturated: bool) -> (r: String)
    ensures
        r@ == activity_text(reading, pool_saturated),
{
    let mut out = owned(ACTIVITY_HEAD);
    push_plain(&mut out, "pumper_store_activity_gauge", show_u64(reading).as_str());
    out.append(SATURATED_HEAD);
    let flag: u64 = if pool_saturated {
        1
    } else {
        0
    };
    push_plain(&mut out, "pumper_store_pool_saturated", show_u64(flag).as_str());
    out
}

/// One snapshot of the webhook delivery log.
#[derive(Debug, Clone, Copy, PartialEq, Eq)]
pub struct DeliveryHealth {
    pub pending: i64,
    pub delivered: i64,
    pub failed: i64,
    pub dead: i64,
    pub attempts: i64,
    pub oldest_undelivered: Option<Instant>,
}

impl Default for DeliveryHealth {
    fn default() -> (r: DeliveryHealth)
        ensures
            r.pending == 0 && r.delivered == 0 && r.failed == 0 && r.dead == 0,
            r.attempts == 0,
            r.oldest_undelivered is None,
    {
        DeliveryHealth {
            pending: 0,
            delivered: 0,
            failed: 0,
            dead: 0,
            attempts: 0,
            oldest_undelivered: None,
        }
    }
}

impl DeliveryHealth {
    /// Age of the oldest delivery the receiver has not accepted: zero for an
    /// empty backlog and for a row stamped in the future.
    pub open spec fn oldest_age(self, now: Instant) -> int {
        match self.oldest_undelivered {
            Some(at) => age_of(now@, at@),
            None => 0,
        }
    }

    /// Age in seconds of the oldest delivery that was not accepted yet.
    pub fn oldest_undelivered_secs(&self, now: Instant) -> (r: i64)
        ensures
            r == self.oldest_age(now),
            r >= 0,
    {
        match self.oldest_undelivered {
            Some(at) => age_seconds(now, at),
            None => 0,
        }
    }
}

/// The webhook block.
pub open spec fn webhook_text(h: DeliveryHealth, now: Instant) -> Seq<char> {
    Seq::<char>::empty()
        + declared("pumper_webhook_deliveries"@, "gauge"@, HELP_WEBHOOK_DELIVERIES@)
        + labelled("pumper_webhook_deliveries"@, "status"@, "pending"@, decimal(h.pending as int))
        + labelled("pumper_webhook_deliveries"@, "status"@, "delivered"@, decimal(h.delivered as int))
        + labelled("pumper_webhook_deliveries"@, "status"@, "failed"@, decimal(h.failed as int))
        + labelled("pumper_webhook_deliveries"@, "status"@, "dead"@, decimal(h.dead as int))
        + declared("pumper_webhook_oldest_undelivered_seconds"@, "gauge"@, HELP_WEBHOOK_OLDEST_UNDELIVERED_SECONDS@)
        + plain("pumper_webhook_oldest_undelivered_seconds"@, decimal(h.oldest_age(now)))
        + declared("pumper_webhook_delivery_attempts_total"@, "counter"@, HELP_WEBHOOK_DELIVERY_ATTEMPTS_TOTAL@)
        + plain("pumper_webhook_delivery_attempts_total"@, decimal(h.attempts as int))
        + declared("pumper_webhook_deliveries_succeeded_total"@, "counter"@, HELP_WEBHOOK_DELIVERIES_SUCCEEDED_TOTAL@)
        + plain("pumper_webhook_deliveries_succeeded_total"@, decimal(h.delivered as int))
}

/// The webhook-delivery block: has everything been failing for six hours?
pub fn webhook_metrics(health: &DeliveryHealth, now: Instant) -> (r: String)
    ensures
        r@ == webhook_text(*health, now),
{
    let mut out = String::new();
    declare(&mut out, "pumper_webhook_deliveries", "gauge", HELP_WEBHOOK_DELIVERIES);
    push_labelled(&mut out, "pumper_webhook_deliveries", "status", "pending", show_i64(health.pending).as_str());
    push_labelled(&mut out, "pumper_webhook_deliveries", "status", "delivered", show_i64(health.delivered).as_str());
    push_labelled(&mut out, "pumper_webhook_deliveries", "status", "failed", show_i64(health.failed).as_str());
    push_labelled(&mut out, "pumper_webhook_deliveries", "status", "dead", show_i64(health.dead).as_str());
    declare(&mut out, "pumper_webhook_oldest_undelivered_seconds", "gauge", HELP_WEBHOOK_OLDEST_UNDELIVERED_SECONDS);
    push_plain(&mut out, "pumper_webhook_oldest_undelivered_seconds", show_i64(health.oldest_undelivered_secs(now)).as_str());
    declare(&mut out, "pumper_webhook_delivery_attempts_total", "counter", HELP_WEBHOOK_DELIVERY_ATTEMPTS_TOTAL);
    push_plain(&mut out, "pumper_webhook_delivery_attempts_total", show_i64(health.attempts).as_str());
    declare(&mut out, "pumper_webhook_deliveries_succeeded_total", "counter", HELP_WEBHOOK_DELIVERIES_SUCCEEDED_TOTAL);
    push_plain(&mut out, "pumper_webhook_deliveries_succeeded_total", show_i64(health.delivered).as_str());
    out
}

/// One instrumented store key: its labels and its figures.
#[derive(Debug, PartialEq)]
pub struct KeyReport {
    pub op: String,
    pub table: String,
    pub phase: String,
    pub lifetime: u64,
    pub slow_lifetime: u64,
    pub slow_line_micros: u64,
    pub busy_lifetime: u64,
    pub errors_lifetime: u64,
    pub rows_lifetime: u64,
    pub p50_micros: u64,
    pub p95_micros: u64,
    pub samples: u64,
    pub wrapped: bool,
    pub window_secs: u64,
    pub window_rows: u64,
    pub worst_micros: u64,
}

/// The figures reported of every store key, in the order they are emitted.
#[derive(Debug, Clone, Copy, PartialEq, Eq, Structural)]
pub enum Figure {
    Ops,
    SlowOps,
    SlowLine,
    Busy,
    Errors,
    Rows,
    P95,
    Samples,
    Window,
    Worst,
}

impl Figure {
    /// The metric that carries the figure.
    pub open spec fn metric_text(self) -> Seq<char> {
        match self {
            Figure::Ops => "pumper_store_ops_total"@,
            Figure::SlowOps => "pumper_store_slow_ops_total"@,
            Figure::SlowLine => "pumper_store_slow_line_seconds"@,
            Figure::Busy => "pumper_store_busy_total"@,
            Figure::Errors => "pumper_store_errors_total"@,
            Figure::Rows => "pumper_store_rows_total"@,
            Figure::P95 => "pumper_store_duration_p95_seconds"@,
            Figure::Samples => "pumper_store_window_samples"@,
            Figure::Window => "pumper_store_window_seconds"@,
            Figure::Worst => "pumper_store_op_worst_seconds"@,
        }
    }

    /// The metric that carries the figure.
    pub fn metric(self) -> (r: &'static str)
        ensures
            r@ == self.metric_text(),
    {
        match self {
            Figure::Ops => "pumper_store_ops_total",
            Figure::SlowOps => "pumper_store_slow_ops_total",
            Figure::SlowLine => "pumper_store_slow_line_seconds",
            Figure::Busy => "pumper_store_busy_total",
            Figure::Errors => "pumper_store_errors_total",
            Figure::Rows => "pumper_store_rows_total",
            Figure::P95 => "pumper_store_duration_p95_seconds",
            Figure::Samples => "pumper_store_window_samples",
            Figure::Window => "pumper_store_window_seconds",
            Figure::Worst => "pumper_store_op_worst_seconds",
        }
    }

    /// Whether the figure is a counter or a gauge.
    pub open spec fn kind_text(self) -> Seq<char> {
        match self {
            Figure::Ops => "counter"@,
            Figure::SlowOps => "counter"@,
            Figure::SlowLine => "gauge"@,
            Figure::Busy => "counter"@,
            Figure::Errors => "counter"@,
            Figure::Rows => "counter"@,
            Figure::P95 => "gauge"@,
            Figure::Samples => "gauge"@,
            Figure::Window => "gauge"@,
            Figure::Worst => "gauge"@,
        }
    }

    /// Whether the figure is a counter or a gauge.
    pub fn kind(self) -> (r: &'static str)
        ensures
            r@ == self.kind_text(),
    {
        match self {
            Figure::Ops => "counter",
            Figure::SlowOps => "counter",
            Figure::SlowLine => "gauge",
            Figure::Busy => "counter",
            Figure::Errors => "counter",
            Figure::Rows => "counter",
            Figure::P95 => "gauge",
            Figure::Samples => "gauge",
            Figure::Window => "gauge",
            Figure::Worst => "gauge",
        }
    }

    /// What the figure means.
    pub open spec fn help_text(self) -> Seq<char> {
        match self {
            Figure::Ops => HELP_STORE_OPS_TOTAL@,
            Figure::SlowOps => HELP_STORE_SLOW_OPS_TOTAL@,
            Figure::SlowLine => HELP_STORE_SLOW_LINE_SECONDS@,
            Figure::Busy => HELP_STORE_BUSY_TOTAL@,
            Figure::Errors => HELP_STORE_ERRORS_TOTAL@,
            Figure::Rows => HELP_STORE_ROWS_TOTAL@,
            Figure::P95 => HELP_STORE_DURATION_P95_SECONDS@,
            Figure::Samples => HELP_STORE_WINDOW_SAMPLES@,
            Figure::Window => HELP_STORE_WINDOW_SECONDS@,
            Figure::Worst => HELP_STORE_OP_WORST_SECONDS@,
        }
    }

    /// What the figure means.
    pub fn help(self) -> (r: &'static str)
        ensures
            r@ == self.help_text(),
    {
        match self {
            Figure::Ops => HELP_STORE_OPS_TOTAL,
            Figure::SlowOps => HELP_STORE_SLOW_OPS_TOTAL,
            Figure::SlowLine => HELP_STORE_SLOW_LINE_SECONDS,
            Figure::Busy => HELP_STORE_BUSY_TOTAL,
            Figure::Errors => HELP_STORE_ERRORS_TOTAL,
            Figure::Rows => HELP_STORE_ROWS_TOTAL,
            Figure::P95 => HELP_STORE_DURATION_P95_SECONDS,
            Figure::Samples => HELP_STORE_WINDOW_SAMPLES,
            Figure::Window => HELP_STORE_WINDOW_SECONDS,
            Figure::Worst => HELP_STORE_OP_WORST_SECONDS,
        }
    }

    /// The figure's value in a report.
    pub open spec fn value_text(self, r: KeyReport) -> Seq<char> {
        match self {
            Figure::Ops => decimal(r.lifetime as int),
            Figure::SlowOps => decimal(r.slow_lifetime as int),
            Figure::SlowLine => seconds_text(r.slow_line_micros as nat),
            Figure::Busy => decimal(r.busy_lifetime as int),
            Figure::Errors => decimal(r.errors_lifetime as int),
            Figure::Rows => decimal(r.rows_lifetime as int),
            Figure::P95 => seconds_text(r.p95_micros as nat),
            Figure::Samples => decimal(r.samples as int),
            Figure::Window => decimal(r.window_secs as int),
            Figure::Worst => seconds_text(r.worst_micros as nat),
        }
    }

    /// The figure's value in a report, as text.
    pub fn value(self, report: &KeyReport) -> (r: String)
        ensures
            r@ == self.value_text(*report),
    {
        match self {
            Figure::Ops => show_u64(report.lifetime),
            Figure::SlowOps => show_u64(report.slow_lifetime),
            Figure::SlowLine => secs(report.slow_line_micros),
            Figure::Busy => show_u64(report.busy_lifetime),
            Figure::Errors => show_u64(report.errors_lifetime),
            Figure::Rows => show_u64(report.rows_lifetime),
            Figure::P95 => secs(report.p95_micros),
            Figure::Samples => show_u64(report.samples),
            Figure::Window => show_u64(report.window_secs),
            Figure::Worst => secs(report.worst_micros),
        }
    }
}

/// One sample of a store figure.
pub open spec fn key_sample(figure: Figure, r: KeyReport) -> Seq<char> {
    figure.metric_text() + "{op=\""@ + r.op@ + "\",table=\""@ + r.table@ + "\",phase=\""@ + r.phase@
        + "\"} "@ + figure.value_text(r) + "\n"@
}

/// A sample carries the operation, the table and the phase of its key, each under its
/// own label.
pub proof fn law_a_store_sample_is_labelled_by_its_key(figure: Figure, r: KeyReport)
    ensures
        begins(key_sample(figure, r), figure.metric_text() + "{op=\""@ + r.op@ + "\",table=\""@),
        begins(
            key_sample(figure, r),
            figure.metric_text() + "{op=\""@ + r.op@ + "\",table=\""@ + r.table@ + "\",phase=\""@
                + r.phase@ + "\"} "@ + figure.value_text(r),
        ),
{
    let short = figure.metric_text() + "{op=\""@ + r.op@ + "\",table=\""@;
    let long = short + r.table@ + "\",phase=\""@ + r.phase@ + "\"} "@ + figure.value_text(r);
    assert(key_sample(figure, r).take(short.len() as int) =~= short);
    assert(key_sample(figure, r).take(long.len() as int) =~= long);
}

/// The samples of a figure over all keys.
pub open spec fn key_samples(figure: Figure, reports: Seq<KeyReport>) -> Seq<char>
    decreases reports.len(),
{
    if reports.len() == 0 {
        Seq::empty()
    } else {
        key_samples(figure, reports.drop_last()) + key_sample(figure, reports.last())
    }
}

/// One declared figure with its samples.
pub open spec fn figure_text(figure: Figure, reports: Seq<KeyReport>) -> Seq<char> {
    declared(figure.metric_text(), figure.kind_text(), figure.help_text()) + key_samples(
        figure,
        reports,
    )
}

fn push_key_sample(out: &mut String, figure: Figure, report: &KeyReport)
    ensures
        final(out)@ == old(out)@ + key_sample(figure, *report),
{
    let mut line = owned(figure.metric());
    line.append("{op=\"");
    line.append(report.op.as_str());
    line.append("\",table=\"");
    line.append(report.table.as_str());
    line.append("\",phase=\"");
    line.append(report.phase.as_str());
    line.append("\"} ");
    line.append(figure.value(report).as_str());
    line.append("\n");
    out.append(line.as_str());
}

fn push_figure(out: &mut String, figure: Figure, reports: &[KeyReport])
    ensures
        final(out)@ == old(out)@ + figure_text(figure, reports@),
{
    let ghost before = out@;
    declare(out, figure.metric(), figure.kind(), figure.help());
    let ghost head = out@;
    let mut i: usize = 0;
    while i < reports.len()
        invariant
            i <= reports@.len(),
            out@ =~= head + key_samples(figure, reports@.take(i as int)),
        decreases reports@.len() - i,
    {
        assert(reports@.take(i + 1).drop_last() =~= reports@.take(i as int));
        push_key_sample(out, figure, &reports[i]);
        i += 1;
    }
    assert(reports@.take(reports@.len() as int) =~= reports@);
    assert(out@ =~= before + figure_text(figure, reports@));
}

/// The store block: every figure declared once, each with a sample per key.
pub open spec fn store_op_text(reports: Seq<KeyReport>) -> Seq<char> {
    Seq::<char>::empty()
        + figure_text(Figure::Ops, reports)
        + figure_text(Figure::SlowOps, reports)
        + figure_text(Figure::SlowLine, reports)
        + figure_text(Figure::Busy, reports)
        + figure_text(Figure::Errors, reports)
        + figure_text(Figure::Rows, reports)
        + figure_text(Figure::P95, reports)
        + figure_text(Figure::Samples, reports)
        + figure_text(Figure::Window, reports)
        + figure_text(Figure::Worst, reports)
}

/// Per-key store telemetry: which part of the store is slow, and is it slow
/// because the engine is working or because it is waiting?
pub fn store_op_metrics(reports: &[KeyReport]) -> (r: String)
    ensures
        r@ == store_op_text(reports@),
{
    let mut out = String::new();
    push_figure(&mut out, Figure::Ops, reports);
    push_figure(&mut out, Figure::SlowOps, reports);
    push_figure(&mut out, Figure::SlowLine, reports);
    push_figure(&mut out, Figure::Busy, reports);
    push_figure(&mut out, Figure::Errors, reports);
    push_figure(&mut out, Figure::Rows, reports);
    push_figure(&mut out, Figure::P95, reports);
    push_figure(&mut out, Figure::Samples, reports);
    push_figure(&mut out, Figure::Window, reports);
    push_figure(&mut out, Figure::Worst, reports);
    out
}

/// How often the passes of one maintenance task ended in each way.
#[derive(Debug, PartialEq)]
pub struct TaskTally {
    pub task: String,
    pub ran: u64,
    pub deferred: u64,
    pub failed: u64,
}

/// One `(task, outcome)` count.
#[derive(Debug, PartialEq)]
pub struct PassCount {
    pub task: String,
    pub outcome: &'static str,
    pub count: u64,
}

/// A count by its texts.
pub open spec fn pass_view(p: PassCount) -> (Seq<char>, Seq<char>, u64) {
    (p.task@, p.outcome@, p.count)
}

/// The three counts of a task, in order: ran, deferred, failed.
pub open spec fn tally_view(t: TaskTally, outcome: int) -> (Seq<char>, Seq<char>, u64) {
    if outcome == 0 {
        (t.task@, "ran"@, t.ran)
    } else if outcome == 1 {
        (t.task@, "deferred"@, t.deferred)
    } else {
        (t.task@, "failed"@, t.failed)
    }
}

/// Every `(task, outcome)` pair of the tallies, in order.
pub open spec fn pass_list(tallies: Seq<TaskTally>) -> Seq<(Seq<char>, Seq<char>, u64)> {
    Seq::new((3 * tallies.len()) as nat, |i: int| tally_view(tallies[i / 3], i % 3))
}

/// The counts by their texts.
pub open spec fn pass_views(counts: Seq<PassCount>) -> Seq<(Seq<char>, Seq<char>, u64)> {
    counts.map_values(|p: PassCount| pass_view(p))
}

/// Every `(task, outcome)` pair, so that no series can be missing on the day it
/// first matters.
pub fn pass_counts(tallies: &[TaskTally]) -> (r: Vec<PassCount>)
    ensures
        pass_views(r@) == pass_list(tallies@),
{
    let mut out: Vec<PassCount> = Vec::new();
    let mut i: usize = 0;
    while i < tallies.len()
        invariant
            i <= tallies@.len(),
            out@.len() == 3 * i,
            forall|k: int|
                0 <= k < out@.len() ==> pass_view(#[trigger] out@[k]) == tally_view(
                    tallies@[k / 3],
                    k % 3,
                ),
        decreases tallies@.len() - i,
    {
        let t = &tallies[i];
        out.push(PassCount { task: owned(t.task.as_str()), outcome: "ran", count: t.ran });
        out.push(PassCount { task: owned(t.task.as_str()), outcome: "deferred", count: t.deferred });
        out.push(PassCount { task: owned(t.task.as_str()), outcome: "failed", count: t.failed });
        i += 1;
    }
    assert(pass_views(out@) =~= pass_list(tallies@));
    out
}

/// One sample of the maintenance counter.
pub open spec fn pass_sample(p: (Seq<char>, Seq<char>, u64)) -> Seq<char> {
    labelled_twice(
        "pumper_store_maintenance_passes_total"@,
        ("task"@, p.0),
        ("outcome"@, p.1),
        decimal(p.2 as int),
    )
}

/// The samples of the maintenance counter.
pub open spec fn pass_samples(counts: Seq<(Seq<char>, Seq<char>, u64)>) -> Seq<char>
    decreases counts.len(),
{
    if counts.len() == 0 {
        Seq::empty()
    } else {
        pass_samples(counts.drop_last()) + pass_sample(counts.last())
    }
}

/// The maintenance block.
pub open spec fn maintenance_text(counts: Seq<(Seq<char>, Seq<char>, u64)>) -> Seq<char> {
    declared(
        "pumper_store_maintenance_passes_total"@,
        "counter"@,
        HELP_STORE_MAINTENANCE_PASSES_TOTAL@,
    ) + pass_samples(counts)
}

/// Maintenance passes by task and outcome: is maintenance actually running?
pub fn maintenance_metrics(counts: &[PassCount]) -> (r: String)
    ensures
        r@ == maintenance_text(pass_views(counts@)),
{
    let mut out = String::new();
    declare(
        &mut out,
        "pumper_store_maintenance_passes_total",
        "counter",
        HELP_STORE_MAINTENANCE_PASSES_TOTAL,
    );
    let ghost head = out@;
    let ghost views = pass_views(counts@);
    let mut i: usize = 0;
    while i < counts.len()
        invariant
            i <= counts@.len(),
            views == pass_views(counts@),
            out@ =~= head + pass_samples(views.take(i as int)),
        decreases counts@.len() - i,
    {
        assert(views.take(i + 1).drop_last() =~= views.take(i as int));
        assert(views.take(i + 1).last() == pass_view(counts@[i as int]));
        push_labelled_twice(
            &mut out,
            "pumper_store_maintenance_passes_total",
            ("task", counts[i].task.as_str()),
            ("outcome", counts[i].outcome),
            show_u64(counts[i].count).as_str(),
        );
        i += 1;
    }
    assert(views.take(counts@.len() as int) =~= views);
    assert(out@ =~= maintenance_text(views));
    out
}

/// How long jobs ran and waited, in seconds as decimal text.
#[derive(Debug, PartialEq)]
pub struct TimingStats {
    pub duration_sum: String,
    pub duration_count: i64,
    pub duration_max: String,
    pub wait_sum: String,
    pub wait_count: i64,
    pub wait_max: String,
}

/// Spend of one app on one engine, in dollars as decimal text.
#[derive(Debug, PartialEq)]
pub struct CostEntry {
    pub app: String,
    pub engine: String,
    pub cost_usd: String,
}

/// Everything one scrape reads.
#[derive(Debug)]
pub struct MetricsFacts {
    /// Jobs per status, as the store groups them.
    pub status_counts: Vec<(String, i64)>,
    /// Permanently failed jobs per app.
    pub failures: Vec<(String, i64)>,
    pub timing: TimingStats,
    pub costs: Vec<CostEntry>,
    /// For each registered app, whether each of its preconditions holds here.
    pub apps: Vec<Vec<bool>>,
    /// For each schedule, whether it is enabled.
    pub schedules: Vec<bool>,
    pub deliveries: DeliveryHealth,
    pub egress: EgressCounters,
    pub checkpoints: CheckpointFailures,
    pub claim_failures: u64,
    pub store: Vec<KeyReport>,
    pub queue: QueueAges,
    pub size: StoreSize,
    pub passes: Vec<TaskTally>,
    pub activity: u64,
    pub pool_saturated: bool,
    pub now: Instant,
}

/// The count of a status: the first row that names it, or zero.
pub open spec fn count_of(counts: Seq<(String, i64)>, status: Seq<char>) -> i64
    decreases counts.len(),
{
    if counts.len() == 0 {
        0
    } else if counts[0].0@ == status {
        counts[0].1
    } else {
        count_of(counts.drop_first(), status)
    }
}

proof fn lemma_count_at(counts: Seq<(String, i64)>, status: Seq<char>, i: int)
    requires
        0 <= i <= counts.len(),
        forall|k: int| 0 <= k < i ==> (#[trigger] counts[k]).0@ != status,
        i < counts.len() ==> counts[i].0@ == status,
    ensures
        count_of(counts, status) == if i < counts.len() {
            counts[i].1
        } else {
            0
        },
    decreases i,
{
    if i > 0 {
        assert(counts[0].0@ != status);
        assert forall|k: int| 0 <= k < i - 1 implies (#[trigger] counts.drop_first()[k]).0@
            != status by {
            assert(counts[k + 1].0@ != status);
        }
        lemma_count_at(counts.drop_first(), status, i - 1);
    }
}

/// The count of a status among grouped rows; a status without a row counts zero.
pub fn status_count(counts: &[(String, i64)], status: &str) -> (r: i64)
    ensures
        r == count_of(counts@, status@),
{
    let mut i: usize = 0;
    while i < counts.len()
        invariant
            i <= counts@.len(),
            forall|k: int| 0 <= k < i ==> (#[trigger] counts@[k]).0@ != status@,
        decreases counts@.len() - i,
    {
        if same(counts[i].0.as_str(), status) {
            proof {
                lemma_count_at(counts@, status@, i as int);
            }
            return counts[i].1;
        }
        i += 1;
    }
    proof {
        lemma_count_at(counts@, status@, i as int);
    }
    0
}

/// Whether every precondition of an app holds.
pub open spec fn all_hold(requirements: Seq<bool>) -> bool {
    forall|i: int| 0 <= i < requirements.len() ==> #[trigger] requirements[i]
}

/// Whether an app can run here: every precondition it declares is satisfied.
pub fn app_ready(requirements: &[bool]) -> (r: bool)
    ensures
        r == all_hold(requirements@),
{
    let mut i: usize = 0;
    while i < requirements.len()
        invariant
            i <= requirements@.len(),
            forall|k: int| 0 <= k < i ==> #[trigger] requirements@[k],
        decreases requirements@.len() - i,
    {
        if !requirements[i] {
            assert(!requirements@[i as int]);
            return false;
        }
        i += 1;
    }
    true
}

/// How many apps are ready.
pub open spec fn ready_count(apps: Seq<Vec<bool>>) -> nat
    decreases apps.len(),
{
    if apps.len() == 0 {
        0
    } else {
        ready_count(apps.drop_last()) + if all_hold(apps.last()@) {
            1nat
        } else {
            0nat
        }
    }
}

/// Counts the apps that can run here.
pub fn count_ready(apps: &[Vec<bool>]) -> (r: usize)
    ensures
        r == ready_count(apps@),
        r <= apps@.len(),
{
    let mut n: usize = 0;
    let mut i: usize = 0;
    while i < apps.len()
        invariant
            i <= apps@.len(),
            n <= i,
            n == ready_count(apps@.take(i as int)),
        decreases apps@.len() - i,
    {
        assert(apps@.take(i + 1).drop_last() =~= apps@.take(i as int));
        if app_ready(&apps[i]) {
            n += 1;
        }
        i += 1;
    }
    assert(apps@.take(apps@.len() as int) =~= apps@);
    n
}

/// How many flags are set.
pub open spec fn set_count(flags: Seq<bool>) -> nat
    decreases flags.len(),
{
    if flags.len() == 0 {
        0
    } else {
        set_count(flags.drop_last()) + if flags.last() {
            1nat
        } else {
            0nat
        }
    }
}

/// Counts the flags that are set.
pub fn count_set(flags: &[bool]) -> (r: usize)
    ensures
        r == set_count(flags@),
        r <= flags@.len(),
{
    let mut n: usize = 0;
    let mut i: usize = 0;
    while i < flags.len()
        invariant
            i <= flags@.len(),
            n <= i,
            n == set_count(flags@.take(i as int)),
        decreases flags@.len() - i,
    {
        assert(flags@.take(i + 1).drop_last() =~= flags@.take(i as int));
        if flags[i] {
            n += 1;
        }
        i += 1;
    }
    assert(flags@.take(flags@.len() as int) =~= flags@);
    n
}

/// The failure samples, one per app.
pub open spec fn failure_samples(failures: Seq<(String, i64)>) -> Seq<char>
    decreases failures.len(),
{
    if failures.len() == 0 {
        Seq::empty()
    } else {
        failure_samples(failures.drop_last()) + labelled(
            "pumper_job_failures_total"@,
            "app"@,
            failures.last().0@,
            decimal(failures.last().1 as int),
        )
    }
}

fn push_failures(out: &mut String, failures: &[(String, i64)])
    ensures
        final(out)@ == old(out)@ + failure_samples(failures@),
{
    let ghost head = out@;
    let mut i: usize = 0;
    while i < failures.len()
        invariant
            i <= failures@.len(),
            out@ =~= head + failure_samples(failures@.take(i as int)),
        decreases failures@.len() - i,
    {
        assert(failures@.take(i + 1).drop_last() =~= failures@.take(i as int));
        push_labelled(
            out,
            "pumper_job_failures_total",
            "app",
            failures[i].0.as_str(),
            show_i64(failures[i].1).as_str(),
        );
        i += 1;
    }
    assert(failures@.take(failures@.len() as int) =~= failures@);
}

/// The spend samples, one per app and engine.
pub open spec fn cost_samples(costs: Seq<CostEntry>) -> Seq<char>
    decreases costs.len(),
{
    if costs.len() == 0 {
        Seq::empty()
    } else {
        cost_samples(costs.drop_last()) + labelled_twice(
            "pumper_cost_usd"@,
            ("app"@, costs.last().app@),
            ("engine"@, costs.last().engine@),
            costs.last().cost_usd@,
        )
    }
}

fn push_costs(out: &mut String, costs: &[CostEntry])
    ensures
        final(out)@ == old(out)@ + cost_samples(costs@),
{
    let ghost head = out@;
    let mut i: usize = 0;
    while i < costs.len()
        invariant
            i <= costs@.len(),
            out@ =~= head + cost_samples(costs@.take(i as int)),
        decreases costs@.len() - i,
    {
        assert(costs@.take(i + 1).drop_last() =~= costs@.take(i as int));
        push_labelled_twice(
            out,
            "pumper_cost_usd",
            ("app", costs[i].app.as_str()),
            ("engine", costs[i].engine.as_str()),
            costs[i].cost_usd.as_str(),
        );
        i += 1;
    }
    assert(costs@.take(costs@.len() as int) =~= costs@);
}

/// How many jobs have a status, as one sample.
pub open spec fn status_sample(counts: Seq<(String, i64)>, status: Seq<char>) -> Seq<char> {
    labelled("pumper_jobs"@, "status"@, status, decimal(count_of(counts, status) as int))
}

/// The job samples, one per status.
pub open spec fn status_samples(counts: Seq<(String, i64)>) -> Seq<char> {
    status_sample(counts, "queued"@) + status_sample(counts, "running"@) + status_sample(
        counts,
        "succeeded"@,
    ) + status_sample(counts, "failed"@) + status_sample(counts, "cancelled"@)
}

fn push_status(out: &mut String, counts: &[(String, i64)], status: &str)
    ensures
        final(out)@ == old(out)@ + status_sample(counts@, status@),
{
    push_labelled(
        out,
        "pumper_jobs",
        "status",
        status,
        show_i64(status_count(counts, status)).as_str(),
    );
}

fn push_statuses(out: &mut String, counts: &[(String, i64)])
    ensures
        final(out)@ == old(out)@ + status_samples(counts@),
{
    let ghost head = out@;
    push_status(out, counts, "queued");
    push_status(out, counts, "running");
    push_status(out, counts, "succeeded");
    push_status(out, counts, "failed");
    push_status(out, counts, "cancelled");
    assert(out@ =~= head + status_samples(counts@));
}

/// The queue block: jobs by status, failures by app, and timings.
pub open spec fn job_text(f: MetricsFacts) -> Seq<char> {
    Seq::<char>::empty()
        + declared("pumper_jobs"@, "gauge"@, HELP_JOBS@)
        + status_samples(f.status_counts@)
        + declared("pumper_job_failures_total"@, "counter"@, HELP_JOB_FAILURES_TOTAL@)
        + failure_samples(f.failures@)
        + declared("pumper_job_duration_seconds"@, "summary"@, HELP_JOB_DURATION_SECONDS@)
        + plain("pumper_job_duration_seconds_sum"@, f.timing.duration_sum@)
        + plain("pumper_job_duration_seconds_count"@, decimal(f.timing.duration_count as int))
        + declared("pumper_job_duration_seconds_max"@, "gauge"@, HELP_JOB_DURATION_SECONDS_MAX@)
        + plain("pumper_job_duration_seconds_max"@, f.timing.duration_max@)
        + declared("pumper_job_queue_wait_seconds"@, "summary"@, HELP_JOB_QUEUE_WAIT_SECONDS@)
        + plain("pumper_job_queue_wait_seconds_sum"@, f.timing.wait_sum@)
        + plain("pumper_job_queue_wait_seconds_count"@, decimal(f.timing.wait_count as int))
        + declared("pumper_job_queue_wait_seconds_max"@, "gauge"@, HELP_JOB_QUEUE_WAIT_SECONDS_MAX@)
        + plain("pumper_job_queue_wait_seconds_max"@, f.timing.wait_max@)
}

/// Renders the queue block.
pub fn job_metrics(facts: &MetricsFacts) -> (r: String)
    ensures
        r@ == job_text(*facts),
{
    let mut out = String::new();
    declare(&mut out, "pumper_jobs", "gauge", HELP_JOBS);
    push_statuses(&mut out, &facts.status_counts);
    declare(&mut out, "pumper_job_failures_total", "counter", HELP_JOB_FAILURES_TOTAL);
    push_failures(&mut out, &facts.failures);
    declare(&mut out, "pumper_job_duration_seconds", "summary", HELP_JOB_DURATION_SECONDS);
    push_plain(&mut out, "pumper_job_duration_seconds_sum", facts.timing.duration_sum.as_str());
    push_plain(&mut out, "pumper_job_duration_seconds_count", show_i64(facts.timing.duration_count).as_str());
    declare(&mut out, "pumper_job_duration_seconds_max", "gauge", HELP_JOB_DURATION_SECONDS_MAX);
    push_plain(&mut out, "pumper_job_duration_seconds_max", facts.timing.duration_max.as_str());
    declare(&mut out, "pumper_job_queue_wait_seconds", "summary", HELP_JOB_QUEUE_WAIT_SECONDS);
    push_plain(&mut out, "pumper_job_queue_wait_seconds_sum", facts.timing.wait_sum.as_str());
    push_plain(&mut out, "pumper_job_queue_wait_seconds_count", show_i64(facts.timing.wait_count).as_str());
    declare(&mut out, "pumper_job_queue_wait_seconds_max", "gauge", HELP_JOB_QUEUE_WAIT_SECONDS_MAX);
    push_plain(&mut out, "pumper_job_queue_wait_seconds_max", facts.timing.wait_max.as_str());
    out
}

/// The platform block: spend, app readiness and schedules.
pub open spec fn platform_text(f: MetricsFacts) -> Seq<char> {
    Seq::<char>::empty()
        + declared("pumper_cost_usd"@, "gauge"@, HELP_COST_USD@)
        + cost_samples(f.costs@)
        + declared("pumper_apps"@, "gauge"@, HELP_APPS@)
        + labelled("pumper_apps"@, "ready"@, "true"@, decimal(ready_count(f.apps@) as int))
        + labelled("pumper_apps"@, "ready"@, "false"@, decimal(f.apps@.len() - ready_count(f.apps@)))
        + declared("pumper_schedules"@, "gauge"@, HELP_SCHEDULES@)
        + labelled("pumper_schedules"@, "enabled"@, "true"@, decimal(set_count(f.schedules@) as int))
        + labelled("pumper_schedules"@, "enabled"@, "false"@, decimal(f.schedules@.len() - set_count(f.schedules@)))
}

/// Renders the platform block.
pub fn platform_metrics(facts: &MetricsFacts) -> (r: String)
    ensures
        r@ == platform_text(*facts),
{
    let mut out = String::new();
    declare(&mut out, "pumper_cost_usd", "gauge", HELP_COST_USD);
    push_costs(&mut out, &facts.costs);
    declare(&mut out, "pumper_apps", "gauge", HELP_APPS);
    let ready = count_ready(&facts.apps);
    push_labelled(&mut out, "pumper_apps", "ready", "true", show_u64(ready as u64).as_str());
    push_labelled(&mut out, "pumper_apps", "ready", "false", show_u64((facts.apps.len() - ready) as u64).as_str());
    declare(&mut out, "pumper_schedules", "gauge", HELP_SCHEDULES);
    let enabled = count_set(&facts.schedules);
    push_labelled(&mut out, "pumper_schedules", "enabled", "true", show_u64(enabled as u64).as_str());
    push_labelled(&mut out, "pumper_schedules", "enabled", "false", show_u64((facts.schedules.len() - enabled) as u64).as_str());
    out
}

/// The whole exposition of one scrape.
pub open spec fn exposition(f: MetricsFacts) -> Seq<char> {
    job_text(f) + platform_text(f) + webhook_text(f.deliveries, f.now) + egress_text(f.egress)
        + checkpoint_text(f.checkpoints) + (CLAIM_FAILURES_HEAD@ + decimal(
        f.claim_failures as int,
    ) + "\n"@) + store_op_text(f.store@) + queue_age_text(f.queue) + store_size_text(f.size)
        + maintenance_text(pass_list(f.passes@)) + activity_text(f.activity, f.pool_saturated)
}

/// Renders the `/metrics` body.
pub fn metrics(facts: &MetricsFacts) -> (r: String)
    ensures
        r@ == exposition(*facts),
{
    let mut out = job_metrics(facts);
    out.append(platform_metrics(facts).as_str());
    out.append(webhook_metrics(&facts.deliveries, facts.now).as_str());
    out.append(egress_metrics(&facts.egress).as_str());
    out.append(checkpoint_metrics(facts.checkpoints).as_str());
    out.append(claim_failure_metrics(facts.claim_failures).as_str());
    out.append(store_op_metrics(&facts.store).as_str());
    out.append(queue_age_metrics(&facts.queue).as_str());
    out.append(store_size_metrics(&facts.size).as_str());
    let counts = pass_counts(&facts.passes);
    out.append(maintenance_metrics(&counts).as_str());
    out.append(activity_metrics(facts.activity, facts.pool_saturated).as_str());
    out
}

/// How long a rendered body is served before the aggregate queries run again.
pub const METRICS_TTL_SECS: u64 = 5;

/// A rendering and when it was made, in milliseconds of a clock that never goes back.
#[derive(Debug, PartialEq)]
pub struct Rendering {
    pub at_millis: u64,
    pub body: String,
}

/// The last rendering of `/metrics`, where there is one.
#[derive(Debug, PartialEq)]
pub struct MetricsCache {
    pub last: Option<Rendering>,
}

impl View for MetricsCache {
    type V = Option<(u64, Seq<char>)>;

    open spec fn view(&self) -> Option<(u64, Seq<char>)> {
        match self.last {
            Some(rendering) => Some((rendering.at_millis, rendering.body@)),
            None => None,
        }
    }
}

/// What a scrape is served without a look at the store: the last rendering, while it
/// is less than five seconds old.
pub open spec fn served(cache: Option<(u64, Seq<char>)>, now_millis: u64) -> Option<Seq<char>> {
    match cache {
        Some((at, body)) => if now_millis - at < 5_000 {
            Some(body)
        } else {
            None
        },
        None => None,
    }
}

/// The body of one rendering: the service's own series, and the mesh's.
pub open spec fn scrape_body(f: MetricsFacts, mesh: MeshTotals) -> Seq<char> {
    exposition(f) + mesh_text(mesh)
}

impl MetricsCache {
    /// The cache of a service that was never scraped.
    pub fn new() -> (r: MetricsCache)
        ensures
            r@ is None,
    {
        MetricsCache { last: None }
    }

    /// The body to serve as it stands; none when the facts must be gathered anew.
    pub fn serve(&self, now_millis: u64) -> (r: Option<String>)
        ensures
            match r {
                Some(body) => served(self@, now_millis) == Some(body@),
                None => served(self@, now_millis) is None,
            },
    {
        match &self.last {
            Some(rendering) => {
                if now_millis <= rendering.at_millis || now_millis - rendering.at_millis
                    < METRICS_TTL_SECS * 1_000 {
                    Some(owned(rendering.body.as_str()))
                } else {
                    None
                }
            },
            None => None,
        }
    }

    /// Renders what was gathered, and keeps it to be served.
    pub fn render(&mut self, now_millis: u64, facts: &MetricsFacts, mesh: &MeshTotals) -> (r:
        String)
        ensures
            r@ == scrape_body(*facts, *mesh),
            final(self)@ == Some((now_millis, r@)),
    {
        let mut body = metrics(facts);
        body.append(mesh_metrics_lines(mesh).as_str());
        self.keep(now_millis, body)
    }

    fn keep(&mut self, now_millis: u64, body: String) -> (r: String)
        ensures
            r@ == body@,
            final(self)@ == Some((now_millis, body@)),
    {
        self.last = Some(Rendering { at_millis: now_millis, body: owned(body.as_str()) });
        body
    }
}

/// One scrape: its answer, the cache it leaves, and whether it read the store. `fresh`
/// is what a rendering would give at that moment.
pub open spec fn scraped(
    cache: Option<(u64, Seq<char>)>,
    now_millis: u64,
    fresh: Seq<char>,
) -> (Seq<char>, Option<(u64, Seq<char>)>, bool) {
    match served(cache, now_millis) {
        Some(body) => (body, cache, false),
        None => (fresh, Some((now_millis, fresh)), true),
    }
}

/// A further scrape less than five seconds after the rendering is answered with the
/// identical body and reads nothing, whatever the store holds by then; a later one
/// renders anew.
pub proof fn law_a_rendering_is_served_for_five_seconds(
    cache: Option<(u64, Seq<char>)>,
    now_millis: u64,
    fresh: Seq<char>,
    later_millis: u64,
    fresh_later: Seq<char>,
)
    ensures
        ({
            let (answer, next, read) = scraped(cache, now_millis, fresh);
            &&& next matches Some((at, body))
            &&& body == answer
            &&& read ==> at == now_millis
            &&& scraped(next, later_millis, fresh_later) == if later_millis - at < 5_000 {
                (answer, next, false)
            } else {
                (fresh_later, Some((later_millis, fresh_later)), true)
            }
        }),
{
}

/// Whether `part` stands somewhere in `whole`.
pub open spec fn occurs(part: Seq<char>, whole: Seq<char>) -> bool {
    exists|before: Seq<char>, after: Seq<char>| whole == #[trigger] (before + part + after)
}

proof fn lemma_occurs_within(part: Seq<char>, middle: Seq<char>, left: Seq<char>, right: Seq<char>)
    requires
        occurs(part, middle),
    ensures
        occurs(part, left + middle + right),
{
    let (b, a) = choose|b: Seq<char>, a: Seq<char>| middle == #[trigger] (b + part + a);
    assert(left + middle + right =~= (left + b) + part + (a + right));
}

proof fn lemma_occurs_left(part: Seq<char>, left: Seq<char>, right: Seq<char>)
    requires
        occurs(part, left),
    ensures
        occurs(part, left + right),
{
    lemma_occurs_within(part, left, Seq::empty(), right);
    assert(Seq::<char>::empty() + left + right =~= left + right);
}

proof fn lemma_occurs_right(part: Seq<char>, left: Seq<char>, right: Seq<char>)
    requires
        occurs(part, right),
    ensures
        occurs(part, left + right),
{
    lemma_occurs_within(part, right, left, Seq::empty());
    assert(left + right + Seq::<char>::empty() =~= left + right);
}

proof fn lemma_occurs_self(part: Seq<char>)
    ensures
        occurs(part, part),
{
    assert(part =~= Seq::<char>::empty() + part + Seq::<char>::empty());
}

/// What is appended stands in the whole, and so does all that stood there before.
pub proof fn lemma_appended(text: Seq<char>, more: Seq<char>)
    ensures
        occurs(more, text + more),
        forall|part: Seq<char>| occurs(part, text) ==> #[trigger] occurs(part, text + more),
{
    lemma_occurs_self(more);
    lemma_occurs_right(more, text, more);
    assert forall|part: Seq<char>| occurs(part, text) implies #[trigger] occurs(
        part,
        text + more,
    ) by {
        lemma_occurs_left(part, text, more);
    }
}

proof fn lemma_status_occurs(counts: Seq<(String, i64)>, status: Seq<char>)
    requires
        status == "queued"@ || status == "running"@ || status == "succeeded"@ || status
            == "failed"@ || status == "cancelled"@,
    ensures
        occurs(status_sample(counts, status), status_samples(counts)),
{
    let part = status_sample(counts, status);
    let a = status_sample(counts, "queued"@);
    let b = a + status_sample(counts, "running"@);
    let c = b + status_sample(counts, "succeeded"@);
    let d = c + status_sample(counts, "failed"@);
    lemma_occurs_self(part);
    if status == "queued"@ {
        assert(occurs(part, a));
    } else if status == "running"@ {
        lemma_occurs_right(part, a, part);
    } else if status == "succeeded"@ {
        lemma_occurs_right(part, b, part);
    } else if status == "failed"@ {
        lemma_occurs_right(part, c, part);
    } else {
        lemma_occurs_right(part, d, part);
    }
    if occurs(part, a) {
        lemma_occurs_left(part, a, status_sample(counts, "running"@));
    }
    if occurs(part, b) {
        lemma_occurs_left(part, b, status_sample(counts, "succeeded"@));
    }
    if occurs(part, c) {
        lemma_occurs_left(part, c, status_sample(counts, "failed"@));
    }
    if occurs(part, d) {
        lemma_occurs_left(part, d, status_sample(counts, "cancelled"@));
    }
}

proof fn lemma_within_scrape(f: MetricsFacts, part: Seq<char>)
    requires
        occurs(part, job_text(f)) || occurs(part, platform_text(f)),
    ensures
        occurs(part, exposition(f)),
{
    let a = job_text(f) + platform_text(f);
    if occurs(part, job_text(f)) {
        lemma_occurs_left(part, job_text(f), platform_text(f));
    } else {
        lemma_occurs_right(part, job_text(f), platform_text(f));
    }
    let b = a + webhook_text(f.deliveries, f.now);
    lemma_occurs_left(part, a, webhook_text(f.deliveries, f.now));
    let c = b + egress_text(f.egress);
    lemma_occurs_left(part, b, egress_text(f.egress));
    let d = c + checkpoint_text(f.checkpoints);
    lemma_occurs_left(part, c, checkpoint_text(f.checkpoints));
    let claims = CLAIM_FAILURES_HEAD@ + decimal(f.claim_failures as int) + "\n"@;
    let e = d + claims;
    lemma_occurs_left(part, d, claims);
    let g = e + store_op_text(f.store@);
    lemma_occurs_left(part, e, store_op_text(f.store@));
    let h = g + queue_age_text(f.queue);
    lemma_occurs_left(part, g, queue_age_text(f.queue));
    let i = h + store_size_text(f.size);
    lemma_occurs_left(part, h, store_size_text(f.size));
    let j = i + maintenance_text(pass_list(f.passes@));
    lemma_occurs_left(part, i, maintenance_text(pass_list(f.passes@)));
    lemma_occurs_left(part, j, activity_text(f.activity, f.pool_saturated));
}

proof fn lemma_status_in_block(f: MetricsFacts, part: Seq<char>)
    requires
        occurs(part, status_samples(f.status_counts@)),
    ensures
        occurs(part, job_text(f)),
{
    let head = Seq::<char>::empty() + declared("pumper_jobs"@, "gauge"@, HELP_JOBS@);
    lemma_occurs_right(part, head, status_samples(f.status_counts@));
    let a = head + status_samples(f.status_counts@);
    let t1 = declared("pumper_job_failures_total"@, "counter"@, HELP_JOB_FAILURES_TOTAL@);
    lemma_occurs_left(part, a, t1);
    let b = a + t1;
    lemma_occurs_left(part, b, failure_samples(f.failures@));
    let c = b + failure_samples(f.failures@);
    let t2 = declared("pumper_job_duration_seconds"@, "summary"@, HELP_JOB_DURATION_SECONDS@);
    lemma_occurs_left(part, c, t2);
    let d = c + t2;
    let t3 = plain("pumper_job_duration_seconds_sum"@, f.timing.duration_sum@);
    lemma_occurs_left(part, d, t3);
    let e = d + t3;
    let t4 = plain(
        "pumper_job_duration_seconds_count"@,
        decimal(f.timing.duration_count as int),
    );
    lemma_occurs_left(part, e, t4);
    let g = e + t4;
    let t5 = declared(
        "pumper_job_duration_seconds_max"@,
        "gauge"@,
        HELP_JOB_DURATION_SECONDS_MAX@,
    );
    lemma_occurs_left(part, g, t5);
    let h = g + t5;
    let t6 = plain("pumper_job_duration_seconds_max"@, f.timing.duration_max@);
    lemma_occurs_left(part, h, t6);
    let i = h + t6;
    let t7 = declared("pumper_job_queue_wait_seconds"@, "summary"@, HELP_JOB_QUEUE_WAIT_SECONDS@);
    lemma_occurs_left(part, i, t7);
    let j = i + t7;
    let t8 = plain("pumper_job_queue_wait_seconds_sum"@, f.timing.wait_sum@);
    lemma_occurs_left(part, j, t8);
    let k = j + t8;
    let t9 = plain("pumper_job_queue_wait_seconds_count"@, decimal(f.timing.wait_count as int));
    lemma_occurs_left(part, k, t9);
    let l = k + t9;
    let t10 = declared(
        "pumper_job_queue_wait_seconds_max"@,
        "gauge"@,
        HELP_JOB_QUEUE_WAIT_SECONDS_MAX@,
    );
    lemma_occurs_left(part, l, t10);
    let m = l + t10;
    lemma_occurs_left(part, m, plain("pumper_job_queue_wait_seconds_max"@, f.timing.wait_max@));
}

/// Every status has its line in a scrape, at zero where no job has it.
pub proof fn law_every_job_status_is_emitted(f: MetricsFacts, mesh: MeshTotals, status: Seq<char>)
    requires
        status == "queued"@ || status == "running"@ || status == "succeeded"@ || status
            == "failed"@ || status == "cancelled"@,
    ensures
        occurs(
            labelled(
                "pumper_jobs"@,
                "status"@,
                status,
                decimal(count_of(f.status_counts@, status) as int),
            ),
            scrape_body(f, mesh),
        ),
        (forall|i: int|
            0 <= i < f.status_counts@.len() ==> (#[trigger] f.status_counts@[i]).0@ != status)
            ==> count_of(f.status_counts@, status) == 0,
{
    let part = status_sample(f.status_counts@, status);
    lemma_status_occurs(f.status_counts@, status);
    lemma_status_in_block(f, part);
    lemma_within_scrape(f, part);
    lemma_occurs_left(part, exposition(f), mesh_text(mesh));
    if forall|i: int|
        0 <= i < f.status_counts@.len() ==> (#[trigger] f.status_counts@[i]).0@ != status {
        lemma_count_at(f.status_counts@, status, f.status_counts@.len() as int);
    }
}

proof fn lemma_ready_bounded(apps: Seq<Vec<bool>>)
    ensures
        ready_count(apps) <= apps.len(),
    decreases apps.len(),
{
    if apps.len() > 0 {
        lemma_ready_bounded(apps.drop_last());
    }
}

proof fn lemma_set_bounded(flags: Seq<bool>)
    ensures
        set_count(flags) <= flags.len(),
    decreases flags.len(),
{
    if flags.len() > 0 {
        lemma_set_bounded(flags.drop_last());
    }
}

/// A scrape counts every registered app, ready or not, and every schedule, enabled or
/// not: of each there are two samples, neither below zero, that add up to how many
/// there are.
pub proof fn law_apps_and_schedules_are_all_counted(f: MetricsFacts, mesh: MeshTotals)
    ensures
        0 <= ready_count(f.apps@) <= f.apps@.len(),
        0 <= set_count(f.schedules@) <= f.schedules@.len(),
        occurs(
            labelled("pumper_apps"@, "ready"@, "true"@, decimal(ready_count(f.apps@) as int)),
            scrape_body(f, mesh),
        ),
        occurs(
            labelled(
                "pumper_apps"@,
                "ready"@,
                "false"@,
                decimal(f.apps@.len() - ready_count(f.apps@)),
            ),
            scrape_body(f, mesh),
        ),
        occurs(
            labelled(
                "pumper_schedules"@,
                "enabled"@,
                "true"@,
                decimal(set_count(f.schedules@) as int),
            ),
            scrape_body(f, mesh),
        ),
        occurs(
            labelled(
                "pumper_schedules"@,
                "enabled"@,
                "false"@,
                decimal(f.schedules@.len() - set_count(f.schedules@)),
            ),
            scrape_body(f, mesh),
        ),
{
    lemma_ready_bounded(f.apps@);
    lemma_set_bounded(f.schedules@);
    let ready = ready_count(f.apps@);
    let unready = f.apps@.len() - ready;
    let on = set_count(f.schedules@);
    let off = f.schedules@.len() - on;
    let s1 = labelled("pumper_apps"@, "ready"@, "true"@, decimal(ready as int));
    let s2 = labelled("pumper_apps"@, "ready"@, "false"@, decimal(unready));
    let s3 = labelled("pumper_schedules"@, "enabled"@, "true"@, decimal(on as int));
    let s4 = labelled("pumper_schedules"@, "enabled"@, "false"@, decimal(off));
    let head = Seq::<char>::empty() + declared("pumper_cost_usd"@, "gauge"@, HELP_COST_USD@)
        + cost_samples(f.costs@) + declared("pumper_apps"@, "gauge"@, HELP_APPS@);
    let a = head + s1;
    let b = a + s2;
    let middle = declared("pumper_schedules"@, "gauge"@, HELP_SCHEDULES@);
    let c = b + middle;
    let d = c + s3;
    let e = d + s4;
    assert(e == platform_text(f));
    lemma_occurs_self(s1);
    lemma_occurs_right(s1, head, s1);
    lemma_occurs_left(s1, a, s2);
    lemma_occurs_self(s2);
    lemma_occurs_right(s2, a, s2);
    lemma_occurs_self(s3);
    lemma_occurs_right(s3, c, s3);
    lemma_occurs_left(s3, d, s4);
    lemma_occurs_self(s4);
    lemma_occurs_right(s4, d, s4);
    lemma_occurs_left(s1, b, middle);
    lemma_occurs_left(s1, c, s3);
    lemma_occurs_left(s1, d, s4);
    lemma_occurs_left(s2, b, middle);
    lemma_occurs_left(s2, c, s3);
    lemma_occurs_left(s2, d, s4);
    lemma_within_scrape(f, s1);
    lemma_within_scrape(f, s2);
    lemma_within_scrape(f, s3);
    lemma_within_scrape(f, s4);
    lemma_occurs_left(s1, exposition(f), mesh_text(mesh));
    lemma_occurs_left(s2, exposition(f), mesh_text(mesh));
    lemma_occurs_left(s3, exposition(f), mesh_text(mesh));
    lemma_occurs_left(s4, exposition(f), mesh_text(mesh));
}

proof fn lemma_sample_occurs(figure: Figure, reports: Seq<KeyReport>, k: int)
    requires
        0 <= k < reports.len(),
    ensures
        occurs(key_sample(figure, reports[k]), key_samples(figure, reports)),
    decreases reports.len(),
{
    let part = key_sample(figure, reports[k]);
    let before = key_samples(figure, reports.drop_last());
    let last = key_sample(figure, reports.last());
    if k == reports.len() - 1 {
        lemma_occurs_self(part);
        lemma_occurs_right(part, before, last);
    } else {
        lemma_sample_occurs(figure, reports.drop_last(), k);
        lemma_occurs_left(part, before, last);
    }
}

/// Every key carries every figure: no store series is ever absent, whatever its
/// value, and each figure's declaration stands in the block.
pub proof fn law_every_store_series_is_emitted(figure: Figure, reports: Seq<KeyReport>, k: int)
    requires
        0 <= k < reports.len(),
    ensures
        occurs(key_sample(figure, reports[k]), store_op_text(reports)),
        occurs(
            declared(figure.metric_text(), figure.kind_text(), figure.help_text()),
            store_op_text(reports),
        ),
{
    let head = declared(figure.metric_text(), figure.kind_text(), figure.help_text());
    lemma_sample_occurs(figure, reports, k);
    lemma_occurs_right(key_sample(figure, reports[k]), head, key_samples(figure, reports));
    lemma_figure_within(figure, reports, key_sample(figure, reports[k]));
    lemma_occurs_self(head);
    lemma_occurs_left(head, head, key_samples(figure, reports));
    lemma_figure_within(figure, reports, head);
}

proof fn lemma_figure_within(figure: Figure, reports: Seq<KeyReport>, part: Seq<char>)
    requires
        occurs(part, figure_text(figure, reports)),
    ensures
        occurs(part, store_op_text(reports)),
{
    let a = Seq::<char>::empty() + figure_text(Figure::Ops, reports);
    let b = a + figure_text(Figure::SlowOps, reports);
    let c = b + figure_text(Figure::SlowLine, reports);
    let d = c + figure_text(Figure::Busy, reports);
    let e = d + figure_text(Figure::Errors, reports);
    let f = e + figure_text(Figure::Rows, reports);
    let g = f + figure_text(Figure::P95, reports);
    let h = g + figure_text(Figure::Samples, reports);
    let i = h + figure_text(Figure::Window, reports);
    let j = i + figure_text(Figure::Worst, reports);
    assert(j == store_op_text(reports));
    let own = figure_text(figure, reports);
    match figure {
        Figure::Ops => lemma_occurs_right(part, Seq::empty(), own),
        Figure::SlowOps => lemma_occurs_right(part, a, own),
        Figure::SlowLine => lemma_occurs_right(part, b, own),
        Figure::Busy => lemma_occurs_right(part, c, own),
        Figure::Errors => lemma_occurs_right(part, d, own),
        Figure::Rows => lemma_occurs_right(part, e, own),
        Figure::P95 => lemma_occurs_right(part, f, own),
        Figure::Samples => lemma_occurs_right(part, g, own),
        Figure::Window => lemma_occurs_right(part, h, own),
        Figure::Worst => lemma_occurs_right(part, i, own),
    }
    if occurs(part, a) {
        lemma_occurs_left(part, a, figure_text(Figure::SlowOps, reports));
    }
    if occurs(part, b) {
        lemma_occurs_left(part, b, figure_text(Figure::SlowLine, reports));
    }
    if occurs(part, c) {
        lemma_occurs_left(part, c, figure_text(Figure::Busy, reports));
    }
    if occurs(part, d) {
        lemma_occurs_left(part, d, figure_text(Figure::Errors, reports));
    }
    if occurs(part, e) {
        lemma_occurs_left(part, e, figure_text(Figure::Rows, reports));
    }
    if occurs(part, f) {
        lemma_occurs_left(part, f, figure_text(Figure::P95, reports));
    }
    if occurs(part, g) {
        lemma_occurs_left(part, g, figure_text(Figure::Samples, reports));
    }
    if occurs(part, h) {
        lemma_occurs_left(part, h, figure_text(Figure::Window, reports));
    }
    if occurs(part, i) {
        lemma_occurs_left(part, i, figure_text(Figure::Worst, reports));
    }
}

/// Every outcome of every maintenance task has its series, at zero as well.
pub proof fn law_every_maintenance_series_is_emitted(
    tallies: Seq<TaskTally>,
    task: int,
    outcome: int,
)
    requires
        0 <= task < tallies.len(),
        0 <= outcome < 3,
    ensures
        occurs(
            pass_sample(tally_view(tallies[task], outcome)),
            maintenance_text(pass_list(tallies)),
        ),
{
    let list = pass_list(tallies);
    let k = 3 * task + outcome;
    assert(list[k] == tally_view(tallies[task], outcome));
    lemma_pass_occurs(list, k);
    lemma_occurs_right(
        pass_sample(list[k]),
        declared(
            "pumper_store_maintenance_passes_total"@,
            "counter"@,
            HELP_STORE_MAINTENANCE_PASSES_TOTAL@,
        ),
        pass_samples(list),
    );
}

proof fn lemma_pass_occurs(list: Seq<(Seq<char>, Seq<char>, u64)>, k: int)
    requires
        0 <= k < list.len(),
    ensures
        occurs(pass_sample(list[k]), pass_samples(list)),
    decreases list.len(),
{
    let part = pass_sample(list[k]);
    let before = pass_samples(list.drop_last());
    if k == list.len() - 1 {
        lemma_occurs_self(part);
        lemma_occurs_right(part, before, pass_sample(list.last()));
    } else {
        lemma_pass_occurs(list.drop_last(), k);
        lemma_occurs_left(part, before, pass_sample(list.last()));
    }
}

/// Each series of the egress block stands there with its own count.
pub proof fn law_each_egress_series_shows_its_own_count(c: EgressCounters)
    ensures
        occurs(
            declared("pumper_remote_egress_fetches"@, "counter"@, HELP_REMOTE_EGRESS_FETCHES@),
            egress_text(c),
        ),
        occurs(
            labelled(
                "pumper_remote_egress_fetches"@,
                "served_by"@,
                "peer"@,
                decimal(c.peer_served as int),
            ),
            egress_text(c),
        ),
        occurs(
            labelled(
                "pumper_remote_egress_fetches"@,
                "served_by"@,
                "local_fallback"@,
                decimal(c.local_fallback as int),
            ),
            egress_text(c),
        ),
{
    let t0 = Seq::<char>::empty();
    let s1 = declared("pumper_remote_egress_fetches"@, "counter"@, HELP_REMOTE_EGRESS_FETCHES@);
    lemma_appended(t0, s1);
    let t1 = t0 + s1;
    let s2 = labelled(
        "pumper_remote_egress_fetches"@,
        "served_by"@,
        "peer"@,
        decimal(c.peer_served as int),
    );
    lemma_appended(t1, s2);
    let t2 = t1 + s2;
    let s3 = labelled(
        "pumper_remote_egress_fetches"@,
        "served_by"@,
        "local_fallback"@,
        decimal(c.local_fallback as int),
    );
    lemma_appended(t2, s3);
    let t3 = t2 + s3;
}

/// Each series of the checkpoint block stands there with its own count.
pub proof fn law_each_checkpoint_series_shows_its_own_count(f: CheckpointFailures)
    ensures
        occurs(
            declared(
                "pumper_checkpoint_failures_total"@,
                "counter"@,
                HELP_CHECKPOINT_FAILURES_TOTAL@,
            ),
            checkpoint_text(f),
        ),
        occurs(
            labelled(
                "pumper_checkpoint_failures_total"@,
                "reason"@,
                "stale_lineage"@,
                decimal(f.stale_lineage as int),
            ),
            checkpoint_text(f),
        ),
        occurs(
            labelled(
                "pumper_checkpoint_failures_total"@,
                "reason"@,
                "storage_error"@,
                decimal(f.storage_error as int),
            ),
            checkpoint_text(f),
        ),
{
    let t0 = Seq::<char>::empty();
    let s1 = declared(
        "pumper_checkpoint_failures_total"@,
        "counter"@,
        HELP_CHECKPOINT_FAILURES_TOTAL@,
    );
    lemma_appended(t0, s1);
    let t1 = t0 + s1;
    let s2 = labelled(
        "pumper_checkpoint_failures_total"@,
        "reason"@,
        "stale_lineage"@,
        decimal(f.stale_lineage as int),
    );
    lemma_appended(t1, s2);
    let t2 = t1 + s2;
    let s3 = labelled(
        "pumper_checkpoint_failures_total"@,
        "reason"@,
        "storage_error"@,
        decimal(f.storage_error as int),
    );
    lemma_appended(t2, s3);
    let t3 = t2 + s3;
}

/// Each age of the queue block stands there with its own figure.
pub proof fn law_each_queue_age_shows_its_own_figure(a: QueueAges)
    ensures
        occurs(
            declared(
                "pumper_jobs_oldest_queued_age_seconds"@,
                "gauge"@,
                HELP_JOBS_OLDEST_QUEUED_AGE_SECONDS@,
            ),
            queue_age_text(a),
        ),
        occurs(
            plain("pumper_jobs_oldest_queued_age_seconds"@, a.oldest_queued_secs@),
            queue_age_text(a),
        ),
        occurs(
            declared(
                "pumper_jobs_oldest_running_age_seconds"@,
                "gauge"@,
                HELP_JOBS_OLDEST_RUNNING_AGE_SECONDS@,
            ),
            queue_age_text(a),
        ),
        occurs(
            plain("pumper_jobs_oldest_running_age_seconds"@, a.oldest_running_secs@),
            queue_age_text(a),
        ),
{
    let t0 = Seq::<char>::empty();
    let s1 = declared(
        "pumper_jobs_oldest_queued_age_seconds"@,
        "gauge"@,
        HELP_JOBS_OLDEST_QUEUED_AGE_SECONDS@,
    );
    lemma_appended(t0, s1);
    let t1 = t0 + s1;
    let s2 = plain("pumper_jobs_oldest_queued_age_seconds"@, a.oldest_queued_secs@);
    lemma_appended(t1, s2);
    let t2 = t1 + s2;
    let s3 = declared(
        "pumper_jobs_oldest_running_age_seconds"@,
        "gauge"@,
        HELP_JOBS_OLDEST_RUNNING_AGE_SECONDS@,
    );
    lemma_appended(t2, s3);
    let t3 = t2 + s3;
    let s4 = plain("pumper_jobs_oldest_running_age_seconds"@, a.oldest_running_secs@);
    lemma_appended(t3, s4);
    let t4 = t3 + s4;
}

/// Each series of the size block stands there with its own figure: the main file,
/// the free space in it and the log beside it are never shown for one another.
pub proof fn law_each_size_series_shows_its_own_figure(s: StoreSize)
    ensures
        occurs(declared("pumper_store_bytes"@, "gauge"@, HELP_STORE_BYTES@), store_size_text(s)),
        occurs(
            labelled("pumper_store_bytes"@, "part"@, "main"@, decimal(s.main_bytes as int)),
            store_size_text(s),
        ),
        occurs(
            labelled("pumper_store_bytes"@, "part"@, "free"@, decimal(s.free_bytes as int)),
            store_size_text(s),
        ),
        occurs(
            labelled("pumper_store_bytes"@, "part"@, "wal"@, decimal(s.wal_bytes as int)),
            store_size_text(s),
        ),
        occurs(declared("pumper_store_pages"@, "gauge"@, HELP_STORE_PAGES@), store_size_text(s)),
        occurs(
            labelled("pumper_store_pages"@, "kind"@, "total"@, decimal(s.page_count as int)),
            store_size_text(s),
        ),
        occurs(
            labelled("pumper_store_pages"@, "kind"@, "free"@, decimal(s.freelist_pages as int)),
            store_size_text(s),
        ),
        occurs(
            declared("pumper_store_page_size_bytes"@, "gauge"@, HELP_STORE_PAGE_SIZE_BYTES@),
            store_size_text(s),
        ),
        occurs(
            plain("pumper_store_page_size_bytes"@, decimal(s.page_size as int)),
            store_size_text(s),
        ),
{
    let t0 = Seq::<char>::empty();
    let s1 = declared("pumper_store_bytes"@, "gauge"@, HELP_STORE_BYTES@);
    lemma_appended(t0, s1);
    let t1 = t0 + s1;
    let s2 = labelled("pumper_store_bytes"@, "part"@, "main"@, decimal(s.main_bytes as int));
    lemma_appended(t1, s2);
    let t2 = t1 + s2;
    let s3 = labelled("pumper_store_bytes"@, "part"@, "free"@, decimal(s.free_bytes as int));
    lemma_appended(t2, s3);
    let t3 = t2 + s3;
    let s4 = labelled("pumper_store_bytes"@, "part"@, "wal"@, decimal(s.wal_bytes as int));
    lemma_appended(t3, s4);
    let t4 = t3 + s4;
    let s5 = declared("pumper_store_pages"@, "gauge"@, HELP_STORE_PAGES@);
    lemma_appended(t4, s5);
    let t5 = t4 + s5;
    let s6 = labelled("pumper_store_pages"@, "kind"@, "total"@, decimal(s.page_count as int));
    lemma_appended(t5, s6);
    let t6 = t5 + s6;
    let s7 = labelled("pumper_store_pages"@, "kind"@, "free"@, decimal(s.freelist_pages as int));
    lemma_appended(t6, s7);
    let t7 = t6 + s7;
    let s8 = declared("pumper_store_page_size_bytes"@, "gauge"@, HELP_STORE_PAGE_SIZE_BYTES@);
    lemma_appended(t7, s8);
    let t8 = t7 + s8;
    let s9 = plain("pumper_store_page_size_bytes"@, decimal(s.page_size as int));
    lemma_appended(t8, s9);
    let t9 = t8 + s9;
}

/// Each series of the delivery block stands there with its own count.
pub proof fn law_each_delivery_series_shows_its_own_count(h: DeliveryHealth, now: Instant)
    ensures
        occurs(
            declared("pumper_webhook_deliveries"@, "gauge"@, HELP_WEBHOOK_DELIVERIES@),
            webhook_text(h, now),
        ),
        occurs(
            labelled(
                "pumper_webhook_deliveries"@,
                "status"@,
                "pending"@,
                decimal(h.pending as int),
            ),
            webhook_text(h, now),
        ),
        occurs(
            labelled(
                "pumper_webhook_deliveries"@,
                "status"@,
                "delivered"@,
                decimal(h.delivered as int),
            ),
            webhook_text(h, now),
        ),
        occurs(
            labelled("pumper_webhook_deliveries"@, "status"@, "failed"@, decimal(h.failed as int)),
            webhook_text(h, now),
        ),
        occurs(
            labelled("pumper_webhook_deliveries"@, "status"@, "dead"@, decimal(h.dead as int)),
            webhook_text(h, now),
        ),
        occurs(
            declared(
                "pumper_webhook_oldest_undelivered_seconds"@,
                "gauge"@,
                HELP_WEBHOOK_OLDEST_UNDELIVERED_SECONDS@,
            ),
            webhook_text(h, now),
        ),
        occurs(
            plain("pumper_webhook_oldest_undelivered_seconds"@, decimal(h.oldest_age(now))),
            webhook_text(h, now),
        ),
        occurs(
            declared(
                "pumper_webhook_delivery_attempts_total"@,
                "counter"@,
                HELP_WEBHOOK_DELIVERY_ATTEMPTS_TOTAL@,
            ),
            webhook_text(h, now),
        ),
        occurs(
            plain("pumper_webhook_delivery_attempts_total"@, decimal(h.attempts as int)),
            webhook_text(h, now),
        ),
        occurs(
            declared(
                "pumper_webhook_deliveries_succeeded_total"@,
                "counter"@,
                HELP_WEBHOOK_DELIVERIES_SUCCEEDED_TOTAL@,
            ),
            webhook_text(h, now),
        ),
        occurs(
            plain("pumper_webhook_deliveries_succeeded_total"@, decimal(h.delivered as int)),
            webhook_text(h, now),
        ),
{
    let t0 = Seq::<char>::empty();
    let s1 = declared("pumper_webhook_deliveries"@, "gauge"@, HELP_WEBHOOK_DELIVERIES@);
    lemma_appended(t0, s1);
    let t1 = t0 + s1;
    let s2 = labelled(
        "pumper_webhook_deliveries"@,
        "status"@,
        "pending"@,
        decimal(h.pending as int),
    );
    lemma_appended(t1, s2);
    let t2 = t1 + s2;
    let s3 = labelled(
        "pumper_webhook_deliveries"@,
        "status"@,
        "delivered"@,
        decimal(h.delivered as int),
    );
    lemma_appended(t2, s3);
    let t3 = t2 + s3;
    let s4 = labelled("pumper_webhook_deliveries"@, "status"@, "failed"@, decimal(h.failed as int));
    lemma_appended(t3, s4);
    let t4 = t3 + s4;
    let s5 = labelled("pumper_webhook_deliveries"@, "status"@, "dead"@, decimal(h.dead as int));
    lemma_appended(t4, s5);
    let t5 = t4 + s5;
    let s6 = declared(
        "pumper_webhook_oldest_undelivered_seconds"@,
        "gauge"@,
        HELP_WEBHOOK_OLDEST_UNDELIVERED_SECONDS@,
    );
    lemma_appended(t5, s6);
    let t6 = t5 + s6;
    let s7 = plain("pumper_webhook_oldest_undelivered_seconds"@, decimal(h.oldest_age(now)));
    lemma_appended(t6, s7);
    let t7 = t6 + s7;
    let s8 = declared(
        "pumper_webhook_delivery_attempts_total"@,
        "counter"@,
        HELP_WEBHOOK_DELIVERY_ATTEMPTS_TOTAL@,
    );
    lemma_appended(t7, s8);
    let t8 = t7 + s8;
    let s9 = plain("pumper_webhook_delivery_attempts_total"@, decimal(h.attempts as int));
    lemma_appended(t8, s9);
    let t9 = t8 + s9;
    let s10 = declared(
        "pumper_webhook_deliveries_succeeded_total"@,
        "counter"@,
        HELP_WEBHOOK_DELIVERIES_SUCCEEDED_TOTAL@,
    );
    lemma_appended(t9, s10);
    let t10 = t9 + s10;
    let s11 = plain("pumper_webhook_deliveries_succeeded_total"@, decimal(h.delivered as int));
    lemma_appended(t10, s11);
    let t11 = t10 + s11;
}

/// Each timing of the job block stands there with its own figure: how long jobs ran is
/// never shown for how long they waited.
pub proof fn law_each_timing_series_shows_its_own_figure(f: MetricsFacts)
    ensures
        occurs(declared("pumper_jobs"@, "gauge"@, HELP_JOBS@), job_text(f)),
        occurs(
            declared("pumper_job_failures_total"@, "counter"@, HELP_JOB_FAILURES_TOTAL@),
            job_text(f),
        ),
        occurs(
            declared("pumper_job_duration_seconds"@, "summary"@, HELP_JOB_DURATION_SECONDS@),
            job_text(f),
        ),
        occurs(plain("pumper_job_duration_seconds_sum"@, f.timing.duration_sum@), job_text(f)),
        occurs(
            plain("pumper_job_duration_seconds_count"@, decimal(f.timing.duration_count as int)),
            job_text(f),
        ),
        occurs(
            declared("pumper_job_duration_seconds_max"@, "gauge"@, HELP_JOB_DURATION_SECONDS_MAX@),
            job_text(f),
        ),
        occurs(plain("pumper_job_duration_seconds_max"@, f.timing.duration_max@), job_text(f)),
        occurs(
            declared("pumper_job_queue_wait_seconds"@, "summary"@, HELP_JOB_QUEUE_WAIT_SECONDS@),
            job_text(f),
        ),
        occurs(plain("pumper_job_queue_wait_seconds_sum"@, f.timing.wait_sum@), job_text(f)),
        occurs(
            plain("pumper_job_queue_wait_seconds_count"@, decimal(f.timing.wait_count as int)),
            job_text(f),
        ),
        occurs(
            declared(
                "pumper_job_queue_wait_seconds_max"@,
                "gauge"@,
                HELP_JOB_QUEUE_WAIT_SECONDS_MAX@,
            ),
            job_text(f),
        ),
        occurs(plain("pumper_job_queue_wait_seconds_max"@, f.timing.wait_max@), job_text(f)),
{
    let t0 = Seq::<char>::empty();
    let s1 = declared("pumper_jobs"@, "gauge"@, HELP_JOBS@);
    lemma_appended(t0, s1);
    let t1 = t0 + s1;
    let s2 = status_samples(f.status_counts@);
    lemma_appended(t1, s2);
    let t2 = t1 + s2;
    let s3 = declared("pumper_job_failures_total"@, "counter"@, HELP_JOB_FAILURES_TOTAL@);
    lemma_appended(t2, s3);
    let t3 = t2 + s3;
    let s4 = failure_samples(f.failures@);
    lemma_appended(t3, s4);
    let t4 = t3 + s4;
    let s5 = declared("pumper_job_duration_seconds"@, "summary"@, HELP_JOB_DURATION_SECONDS@);
    lemma_appended(t4, s5);
    let t5 = t4 + s5;
    let s6 = plain("pumper_job_duration_seconds_sum"@, f.timing.duration_sum@);
    lemma_appended(t5, s6);
    let t6 = t5 + s6;
    let s7 = plain("pumper_job_duration_seconds_count"@, decimal(f.timing.duration_count as int));
    lemma_appended(t6, s7);
    let t7 = t6 + s7;
    let s8 = declared("pumper_job_duration_seconds_max"@, "gauge"@, HELP_JOB_DURATION_SECONDS_MAX@);
    lemma_appended(t7, s8);
    let t8 = t7 + s8;
    let s9 = plain("pumper_job_duration_seconds_max"@, f.timing.duration_max@);
    lemma_appended(t8, s9);
    let t9 = t8 + s9;
    let s10 = declared("pumper_job_queue_wait_seconds"@, "summary"@, HELP_JOB_QUEUE_WAIT_SECONDS@);
    lemma_appended(t9, s10);
    let t10 = t9 + s10;
    let s11 = plain("pumper_job_queue_wait_seconds_sum"@, f.timing.wait_sum@);
    lemma_appended(t10, s11);
    let t11 = t10 + s11;
    let s12 = plain("pumper_job_queue_wait_seconds_count"@, decimal(f.timing.wait_count as int));
    lemma_appended(t11, s12);
    let t12 = t11 + s12;
    let s13 = declared(
        "pumper_job_queue_wait_seconds_max"@,
        "gauge"@,
        HELP_JOB_QUEUE_WAIT_SECONDS_MAX@,
    );
    lemma_appended(t12, s13);
    let t13 = t12 + s13;
    let s14 = plain("pumper_job_queue_wait_seconds_max"@, f.timing.wait_max@);
    lemma_appended(t13, s14);
    let t14 = t13 + s14;
}

/// The activity block shows the gauge as it was read, and one exactly where the pool
/// was saturated.
pub proof fn law_activity_is_shown_as_read(reading: u64, pool_saturated: bool)
    ensures
        occurs(
            plain("pumper_store_activity_gauge"@, decimal(reading as int)),
            activity_text(reading, pool_saturated),
        ),
        occurs(
            plain("pumper_store_pool_saturated"@, decimal(if pool_saturated { 1 } else { 0 })),
            activity_text(reading, pool_saturated),
        ),
{
    let t0 = ACTIVITY_HEAD@;
    lemma_occurs_self(t0);
    let s1 = plain("pumper_store_activity_gauge"@, decimal(reading as int));
    lemma_appended(t0, s1);
    let t1 = t0 + s1;
    let s2 = SATURATED_HEAD@;
    lemma_appended(t1, s2);
    let t2 = t1 + s2;
    let s3 = plain("pumper_store_pool_saturated"@, decimal(if pool_saturated { 1 } else { 0 }));
    lemma_appended(t2, s3);
    let t3 = t2 + s3;
}

/// Every figure of a key's report stands under its own name.
pub proof fn law_each_store_figure_shows_its_own_measure(r: KeyReport)
    ensures
        Figure::Ops.metric_text() == "pumper_store_ops_total"@,
        Figure::Ops.value_text(r) == decimal(r.lifetime as int),
        Figure::SlowOps.metric_text() == "pumper_store_slow_ops_total"@,
        Figure::SlowOps.value_text(r) == decimal(r.slow_lifetime as int),
        Figure::SlowLine.metric_text() == "pumper_store_slow_line_seconds"@,
        Figure::SlowLine.value_text(r) == seconds_text(r.slow_line_micros as nat),
        Figure::Busy.metric_text() == "pumper_store_busy_total"@,
        Figure::Busy.value_text(r) == decimal(r.busy_lifetime as int),
        Figure::Errors.metric_text() == "pumper_store_errors_total"@,
        Figure::Errors.value_text(r) == decimal(r.errors_lifetime as int),
        Figure::Rows.metric_text() == "pumper_store_rows_total"@,
        Figure::Rows.value_text(r) == decimal(r.rows_lifetime as int),
        Figure::P95.metric_text() == "pumper_store_duration_p95_seconds"@,
        Figure::P95.value_text(r) == seconds_text(r.p95_micros as nat),
        Figure::Samples.metric_text() == "pumper_store_window_samples"@,
        Figure::Samples.value_text(r) == decimal(r.samples as int),
        Figure::Window.metric_text() == "pumper_store_window_seconds"@,
        Figure::Window.value_text(r) == decimal(r.window_secs as int),
        Figure::Worst.metric_text() == "pumper_store_op_worst_seconds"@,
        Figure::Worst.value_text(r) == seconds_text(r.worst_micros as nat),
{
}

/// A task's passes are counted by what became of them.
pub proof fn law_each_pass_is_counted_by_its_outcome(tallies: Seq<TaskTally>, k: int)
    requires
        0 <= k < tallies.len(),
    ensures
        pass_list(tallies).len() == 3 * tallies.len(),
        pass_list(tallies).contains((tallies[k].task@, "ran"@, tallies[k].ran)),
        pass_list(tallies).contains((tallies[k].task@, "deferred"@, tallies[k].deferred)),
        pass_list(tallies).contains((tallies[k].task@, "failed"@, tallies[k].failed)),
{
    let all = pass_list(tallies);
    assert(all[3 * k] == (tallies[k].task@, "ran"@, tallies[k].ran));
    assert(all[3 * k + 1] == (tallies[k].task@, "deferred"@, tallies[k].deferred));
    assert(all[3 * k + 2] == (tallies[k].task@, "failed"@, tallies[k].failed));
}

/// Every app's failures have their sample, and every app's spend on an engine has
/// its own.
pub proof fn law_every_failure_and_cost_is_emitted(
    failures: Seq<(String, i64)>,
    costs: Seq<CostEntry>,
    i: int,
    k: int,
)
    ensures
        0 <= i < failures.len() ==> occurs(
            labelled(
                "pumper_job_failures_total"@,
                "app"@,
                failures[i].0@,
                decimal(failures[i].1 as int),
            ),
            failure_samples(failures),
        ),
        0 <= k < costs.len() ==> occurs(
            labelled_twice(
                "pumper_cost_usd"@,
                ("app"@, costs[k].app@),
                ("engine"@, costs[k].engine@),
                costs[k].cost_usd@,
            ),
            cost_samples(costs),
        ),
    decreases failures.len() + costs.len(),
{
    if 0 <= i < failures.len() {
        let rest = failures.drop_last();
        let last = labelled(
            "pumper_job_failures_total"@,
            "app"@,
            failures.last().0@,
            decimal(failures.last().1 as int),
        );
        lemma_appended(failure_samples(rest), last);
        if i < rest.len() {
            law_every_failure_and_cost_is_emitted(rest, costs, i, -1);
        }
    }
    if 0 <= k < costs.len() {
        let rest = costs.drop_last();
        let last = labelled_twice(
            "pumper_cost_usd"@,
            ("app"@, costs.last().app@),
            ("engine"@, costs.last().engine@),
            costs.last().cost_usd@,
        );
        lemma_appended(cost_samples(rest), last);
        if k < rest.len() {
            law_every_failure_and_cost_is_emitted(failures, rest, -1, k);
        }
    }
}

/// The count of a status is that of its first entry, and an app is ready exactly
/// where all it needs is there; the ready apps and the enabled schedules are counted
/// one by one.
pub proof fn law_counts_are_read_off_their_entries(
    counts: Seq<(String, i64)>,
    status: Seq<char>,
    i: int,
    apps: Seq<Vec<bool>>,
    flags: Seq<bool>,
)
    ensures
        0 <= i < counts.len() && counts[i].0@ == status && (forall|k: int|
            0 <= k < i ==> (#[trigger] counts[k]).0@ != status) ==> count_of(counts, status)
            == counts[i].1,
        ready_count(apps) == apps.filter(
            |a: Vec<bool>| forall|n: int| 0 <= n < a@.len() ==> #[trigger] a@[n],
        ).len(),
        set_count(flags) == flags.filter(|b: bool| b).len(),
    decreases counts.len() + apps.len() + flags.len(),
{
    reveal(Seq::filter);
    let ready = |a: Vec<bool>| forall|n: int| 0 <= n < a@.len() ==> #[trigger] a@[n];
    if 0 <= i < counts.len() && counts[i].0@ == status && (forall|k: int|
        0 <= k < i ==> (#[trigger] counts[k]).0@ != status) {
        lemma_count_at(counts, status, i);
    }
    if apps.len() > 0 {
        law_counts_are_read_off_their_entries(counts, status, -1, apps.drop_last(), flags);
        assert(ready(apps.last()) == all_hold(apps.last()@));
    }
    if flags.len() > 0 {
        law_counts_are_read_off_their_entries(counts, status, -1, apps, flags.drop_last());
    }
}

} // verus!
