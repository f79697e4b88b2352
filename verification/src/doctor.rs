//! The store integrity report: what each append-only table is bounded by, what
//! the artifact tree still backs, and the store's own telemetry. Everything here
//! describes; nothing repairs.

use vstd::prelude::*;

use crate::clock::{days_between, rfc3339_text, whole_days, write_rfc3339, Instant};
use crate::economics::{lemma_lists_more, lists_where};
use crate::json::{law_read_after_put, lemma_put, models, Json, JsonModel};
use crate::metrics::{
    law_padding_keeps_the_number, padded, tens, KeyReport, PassCount, StoreSize,
};
use crate::number::{decimal, show_u64, value};
use crate::text::same;

verus! {

/// Most replayable revisions whose bodies are looked for in one report.
pub const MAX_BODIES_CHECKED: i64 = 5_000;

/// The retention windows of `[storage]`, in days; zero keeps everything.
#[derive(Debug, Clone, Copy, PartialEq, Eq)]
pub struct StorageConfig {
    pub cost_event_retention_days: u64,
    pub webhook_delivery_retention_days: u64,
    pub webhook_dead_letter_retention_days: u64,
    pub job_yield_retention_days: u64,
    pub saved_search_seen_retention_days: u64,
    pub revision_retention_days: u64,
}

impl Default for StorageConfig {
    fn default() -> (r: StorageConfig)
        ensures
            r.cost_event_retention_days == 0 && r.webhook_delivery_retention_days == 0,
            r.webhook_dead_letter_retention_days == 0 && r.job_yield_retention_days == 0,
            r.saved_search_seen_retention_days == 0 && r.revision_retention_days == 0,
    {
        StorageConfig {
            cost_event_retention_days: 0,
            webhook_delivery_retention_days: 0,
            webhook_dead_letter_retention_days: 0,
            job_yield_retention_days: 0,
            saved_search_seen_retention_days: 0,
            revision_retention_days: 0,
        }
    }
}

/// The `[storage]` key that bounds a table; empty for a table without one.
pub open spec fn key_of(table: Seq<char>) -> Seq<char> {
    if table == "cost_events"@ {
        "cost_event_retention_days"@
    } else if table == "webhook_deliveries"@ {
        "webhook_delivery_retention_days"@
    } else if table == "job_yield"@ {
        "job_yield_retention_days"@
    } else if table == "saved_search_seen"@ {
        "saved_search_seen_retention_days"@
    } else if table == "record_revisions"@ {
        "revision_retention_days"@
    } else {
        ""@
    }
}

/// Which `[storage]` key bounds each append-only table, so that a finding can
/// name the exact key to set.
pub fn retention_key_for(table: &str) -> (r: &'static str)
    ensures
        r@ == key_of(table@),
{
    if same(table, "cost_events") {
        "cost_event_retention_days"
    } else if same(table, "webhook_deliveries") {
        "webhook_delivery_retention_days"
    } else if same(table, "job_yield") {
        "job_yield_retention_days"
    } else if same(table, "saved_search_seen") {
        "saved_search_seen_retention_days"
    } else if same(table, "record_revisions") {
        "revision_retention_days"
    } else {
        ""
    }
}

/// The window that bounds a table, in days. Deliveries end in two ways with a
/// window each; the table is bounded only as far as both are.
pub open spec fn window_of(cfg: StorageConfig, table: Seq<char>) -> u64 {
    if table == "cost_events"@ {
        cfg.cost_event_retention_days
    } else if table == "webhook_deliveries"@ {
        if cfg.webhook_delivery_retention_days < cfg.webhook_dead_letter_retention_days {
            cfg.webhook_delivery_retention_days
        } else {
            cfg.webhook_dead_letter_retention_days
        }
    } else if table == "job_yield"@ {
        cfg.job_yield_retention_days
    } else if table == "saved_search_seen"@ {
        cfg.saved_search_seen_retention_days
    } else if table == "record_revisions"@ {
        cfg.revision_retention_days
    } else {
        0
    }
}

/// The configured window of a table, in days; zero for one without a bound.
pub fn configured_window(cfg: &StorageConfig, table: &str) -> (r: u64)
    ensures
        r == window_of(*cfg, table@),
{
    if same(table, "cost_events") {
        cfg.cost_event_retention_days
    } else if same(table, "webhook_deliveries") {
        if cfg.webhook_delivery_retention_days < cfg.webhook_dead_letter_retention_days {
            cfg.webhook_delivery_retention_days
        } else {
            cfg.webhook_dead_letter_retention_days
        }
    } else if same(table, "job_yield") {
        cfg.job_yield_retention_days
    } else if same(table, "saved_search_seen") {
        cfg.saved_search_seen_retention_days
    } else if same(table, "record_revisions") {
        cfg.revision_retention_days
    } else {
        0
    }
}

/// A delivery log is bounded exactly when both of its windows are.
pub proof fn law_deliveries_need_both_windows(cfg: StorageConfig)
    ensures
        window_of(cfg, "webhook_deliveries"@) > 0 <==> cfg.webhook_delivery_retention_days > 0
            && cfg.webhook_dead_letter_retention_days > 0,
{
    reveal_strlit("webhook_deliveries");
    reveal_strlit("cost_events");
    assert("webhook_deliveries"@.len() != "cost_events"@.len());
}

/// A table without a key has no window either: what no key bounds is unbounded.
pub proof fn law_keyless_tables_are_unbounded(cfg: StorageConfig, table: Seq<char>)
    requires
        key_of(table) == ""@,
    ensures
        window_of(cfg, table) == 0,
{
    reveal_strlit("");
    reveal_strlit("cost_event_retention_days");
    reveal_strlit("webhook_delivery_retention_days");
    reveal_strlit("job_yield_retention_days");
    reveal_strlit("saved_search_seen_retention_days");
    reveal_strlit("revision_retention_days");
    assert(""@.len() == 0);
    assert(key_of(table).len() == 0);
}

/// Every table is bounded by the setting its report names: the window shown is
/// that setting's own value, and for deliveries the shorter of the two they are
/// kept for.
pub proof fn law_each_table_is_bounded_by_the_setting_it_names(cfg: StorageConfig)
    ensures
        key_of("cost_events"@) == "cost_event_retention_days"@,
        window_of(cfg, "cost_events"@) == cfg.cost_event_retention_days,
        key_of("webhook_deliveries"@) == "webhook_delivery_retention_days"@,
        window_of(cfg, "webhook_deliveries"@) <= cfg.webhook_delivery_retention_days,
        window_of(cfg, "webhook_deliveries"@) <= cfg.webhook_dead_letter_retention_days,
        window_of(cfg, "webhook_deliveries"@) == cfg.webhook_delivery_retention_days || window_of(
            cfg,
            "webhook_deliveries"@,
        ) == cfg.webhook_dead_letter_retention_days,
        key_of("job_yield"@) == "job_yield_retention_days"@,
        window_of(cfg, "job_yield"@) == cfg.job_yield_retention_days,
        key_of("saved_search_seen"@) == "saved_search_seen_retention_days"@,
        window_of(cfg, "saved_search_seen"@) == cfg.saved_search_seen_retention_days,
        key_of("record_revisions"@) == "revision_retention_days"@,
        window_of(cfg, "record_revisions"@) == cfg.revision_retention_days,
{
    reveal_strlit("cost_events");
    reveal_strlit("webhook_deliveries");
    reveal_strlit("job_yield");
    reveal_strlit("saved_search_seen");
    reveal_strlit("record_revisions");
    assert("cost_events"@.len() == 11);
    assert("webhook_deliveries"@.len() == 18);
    assert("job_yield"@.len() == 9);
    assert("saved_search_seen"@.len() == 17);
    assert("record_revisions"@.len() == 16);
}

/// An append-only table as the store measures it.
#[derive(Debug, PartialEq)]
pub struct LedgerStat {
    pub table: String,
    pub rows: i64,
    pub oldest: Option<Instant>,
}

/// The report's row for a table.
pub open spec fn table_row(s: LedgerStat, cfg: StorageConfig, now: Instant) -> JsonModel {
    JsonModel::object().put("table"@, JsonModel::Text(s.table@)).put(
        "rows"@,
        JsonModel::integer(s.rows as int),
    ).put(
        "oldest_days"@,
        JsonModel::int_or_null(
            match s.oldest {
                Some(o) => Some(days_between(now@, o@)),
                None => None,
            },
        ),
    ).put("retention_days"@, JsonModel::integer(window_of(cfg, s.table@) as int)).put(
        "config_key"@,
        JsonModel::Text(key_of(s.table@)),
    )
}

/// Each member of a table row holds what it is named after.
pub proof fn law_a_table_row_names_what_it_shows(s: LedgerStat, cfg: StorageConfig, now: Instant)
    ensures
        ({
            let shown = table_row(s, cfg, now);
            &&& shown.get("table"@) == Some(JsonModel::Text(s.table@))
            &&& shown.get("rows"@) == Some(JsonModel::integer(s.rows as int))
            &&& shown.get("oldest_days"@) == Some(
                JsonModel::int_or_null(
                    match s.oldest { Some(o) => Some(days_between(now@, o@)), None => None, },
                ),
            )
            &&& shown.get("retention_days"@) == Some(
                JsonModel::integer(window_of(cfg, s.table@) as int),
            )
            &&& shown.get("config_key"@) == Some(JsonModel::Text(key_of(s.table@)))
        }),
{
    reveal_strlit("table");
    reveal_strlit("rows");
    reveal_strlit("oldest_days");
    reveal_strlit("retention_days");
    reveal_strlit("config_key");
    let m0 = JsonModel::object();
    let v1 = JsonModel::Text(s.table@);
    lemma_put(m0, "table"@, v1);
    let m1 = m0.put("table"@, v1);
    let v2 = JsonModel::integer(s.rows as int);
    lemma_put(m1, "rows"@, v2);
    let m2 = m1.put("rows"@, v2);
    let v3 = JsonModel::int_or_null(
        match s.oldest { Some(o) => Some(days_between(now@, o@)), None => None, },
    );
    lemma_put(m2, "oldest_days"@, v3);
    let m3 = m2.put("oldest_days"@, v3);
    let v4 = JsonModel::integer(window_of(cfg, s.table@) as int);
    lemma_put(m3, "retention_days"@, v4);
    let m4 = m3.put("retention_days"@, v4);
    let v5 = JsonModel::Text(key_of(s.table@));
    lemma_put(m4, "config_key"@, v5);
}

/// How a table grows and what bounds it.
pub fn table_growth(stat: &LedgerStat, cfg: &StorageConfig, now: Instant) -> (r: Json)
    ensures
        r@ == table_row(*stat, *cfg, now),
{
    let mut out = Json::object();
    out.set("table", Json::text(stat.table.as_str()));
    out.set("rows", Json::integer(stat.rows));
    let oldest: Option<i64> = match stat.oldest {
        Some(o) => Some(whole_days(now, o)),
        None => None,
    };
    out.set("oldest_days", Json::optional_int(oldest));
    out.set("retention_days", Json::unsigned(configured_window(cfg, stat.table.as_str())));
    out.set("config_key", Json::text(retention_key_for(stat.table.as_str())));
    out
}

/// Provenance coverage of one dataset.
#[derive(Debug, PartialEq)]
pub struct DatasetCoverage {
    pub app: String,
    pub dataset: String,
    pub revisions: i64,
    pub with_job_id: i64,
    pub replayable: i64,
}

/// The report's row for a dataset.
pub open spec fn coverage_row(c: DatasetCoverage) -> JsonModel {
    JsonModel::object().put("app"@, JsonModel::Text(c.app@)).put(
        "dataset"@,
        JsonModel::Text(c.dataset@),
    ).put("revisions"@, JsonModel::integer(c.revisions as int)).put(
        "with_job_id"@,
        JsonModel::integer(c.with_job_id as int),
    ).put("replayable"@, JsonModel::integer(c.replayable as int))
}

/// Each member of a coverage row holds the count it is named after.
pub proof fn law_a_coverage_row_names_what_it_shows(c: DatasetCoverage)
    ensures
        ({
            let shown = coverage_row(c);
            &&& shown.get("app"@) == Some(JsonModel::Text(c.app@))
            &&& shown.get("dataset"@) == Some(JsonModel::Text(c.dataset@))
            &&& shown.get("revisions"@) == Some(JsonModel::integer(c.revisions as int))
            &&& shown.get("with_job_id"@) == Some(JsonModel::integer(c.with_job_id as int))
            &&& shown.get("replayable"@) == Some(JsonModel::integer(c.replayable as int))
        }),
{
    reveal_strlit("app");
    reveal_strlit("dataset");
    reveal_strlit("revisions");
    reveal_strlit("with_job_id");
    reveal_strlit("replayable");
    let m0 = JsonModel::object();
    let v1 = JsonModel::Text(c.app@);
    lemma_put(m0, "app"@, v1);
    let m1 = m0.put("app"@, v1);
    let v2 = JsonModel::Text(c.dataset@);
    lemma_put(m1, "dataset"@, v2);
    let m2 = m1.put("dataset"@, v2);
    let v3 = JsonModel::integer(c.revisions as int);
    lemma_put(m2, "revisions"@, v3);
    let m3 = m2.put("revisions"@, v3);
    let v4 = JsonModel::integer(c.with_job_id as int);
    lemma_put(m3, "with_job_id"@, v4);
    let m4 = m3.put("with_job_id"@, v4);
    let v5 = JsonModel::integer(c.replayable as int);
    lemma_put(m4, "replayable"@, v5);
}

fn coverage_json(c: &DatasetCoverage) -> (r: Json)
    ensures
        r@ == coverage_row(*c),
{
    let mut out = Json::object();
    out.set("app", Json::text(c.app.as_str()));
    out.set("dataset", Json::text(c.dataset.as_str()));
    out.set("revisions", Json::integer(c.revisions));
    out.set("with_job_id", Json::integer(c.with_job_id));
    out.set("replayable", Json::integer(c.replayable));
    out
}

/// The indices of the claims whose body is gone, in order.
pub open spec fn absent(present: Seq<bool>) -> Seq<usize>
    decreases present.len(),
{
    if present.len() == 0 {
        Seq::empty()
    } else if present.last() {
        absent(present.drop_last())
    } else {
        absent(present.drop_last()).push((present.len() - 1) as usize)
    }
}

/// Which of the claims the filesystem can no longer back, given for each whether
/// its body is there.
pub fn missing_bodies(present: &[bool]) -> (r: Vec<usize>)
    ensures
        r@ == absent(present@),
{
    let mut out: Vec<usize> = Vec::new();
    let mut i: usize = 0;
    while i < present.len()
        invariant
            i <= present@.len(),
            out@ =~= absent(present@.take(i as int)),
        decreases present@.len() - i,
    {
        assert(present@.take(i + 1).drop_last() =~= present@.take(i as int));
        if !present[i] {
            out.push(i);
        }
        i += 1;
    }
    assert(present@.take(present@.len() as int) =~= present@);
    out
}

/// The missing bodies are exactly the ones that were looked for and not found, in
/// rising order.
pub proof fn law_missing_bodies_are_those_not_present(present: Seq<bool>)
    requires
        present.len() <= usize::MAX,
    ensures
        lists_where(absent(present), present.len(), |i: int| !present[i]),
{
    lemma_absent(present, present.len() as int);
    assert(present.take(present.len() as int) =~= present);
}

proof fn lemma_absent(present: Seq<bool>, n: int)
    requires
        0 <= n <= present.len() <= usize::MAX,
    ensures
        lists_where(absent(present.take(n)), n as nat, |i: int| !present[i]),
    decreases n,
{
    if n > 0 {
        lemma_absent(present, n - 1);
        assert(present.take(n).drop_last() =~= present.take(n - 1));
        lemma_lists_more(
            absent(present.take(n - 1)),
            (n - 1) as nat,
            |i: int| !present[i],
        );
    }
}

/// The sum of the byte counts.
pub open spec fn bytes_sum(bytes: Seq<u64>) -> nat
    decreases bytes.len(),
{
    if bytes.len() == 0 {
        0
    } else {
        bytes_sum(bytes.drop_last()) + bytes.last() as nat
    }
}

proof fn lemma_sum_grows(bytes: Seq<u64>, i: int)
    requires
        0 <= i <= bytes.len(),
    ensures
        bytes_sum(bytes.take(i)) <= bytes_sum(bytes),
    decreases bytes.len() - i,
{
    if i < bytes.len() {
        lemma_sum_grows(bytes, i + 1);
        assert(bytes.take(i + 1).drop_last() =~= bytes.take(i));
    } else {
        assert(bytes.take(i) =~= bytes);
    }
}

/// What the artifact tree holds in all; `None` when that exceeds 64 bits.
pub fn total_bytes(bytes: &[u64]) -> (r: Option<u64>)
    ensures
        match r {
            Some(n) => n == bytes_sum(bytes@),
            None => bytes_sum(bytes@) > u64::MAX,
        },
{
    let mut total: u64 = 0;
    let mut i: usize = 0;
    assert(bytes@.take(0) =~= Seq::<u64>::empty());
    while i < bytes.len()
        invariant
            i <= bytes@.len(),
            total == bytes_sum(bytes@.take(i as int)),
        decreases bytes@.len() - i,
    {
        assert(bytes@.take(i + 1).drop_last() =~= bytes@.take(i as int));
        match total.checked_add(bytes[i]) {
            Some(t) => {
                total = t;
            },
            None => {
                proof {
                    lemma_sum_grows(bytes@, i + 1);
                }
                return None;
            },
        }
        i += 1;
    }
    assert(bytes@.take(bytes@.len() as int) =~= bytes@);
    Some(total)
}

/// The retained artifacts of one app.
#[derive(Debug, PartialEq)]
pub struct AppReclaim {
    pub app: String,
    pub files: u64,
    pub bytes: u64,
    pub reclaimable_files: u64,
    pub reclaimable_bytes: u64,
    pub pinned_files: u64,
    pub pinned_bytes: u64,
    pub cassette_files: u64,
    pub cassette_bytes: u64,
    pub within_window_files: u64,
    pub within_window_bytes: u64,
}

/// One app's row of the artifact block.
pub open spec fn reclaim_row(a: AppReclaim) -> JsonModel {
    JsonModel::object().put("app"@, JsonModel::Text(a.app@)).put(
        "files"@,
        JsonModel::integer(a.files as int),
    ).put("bytes"@, JsonModel::integer(a.bytes as int)).put(
        "reclaimable_files"@,
        JsonModel::integer(a.reclaimable_files as int),
    ).put("reclaimable_bytes"@, JsonModel::integer(a.reclaimable_bytes as int)).put(
        "pinned_files"@,
        JsonModel::integer(a.pinned_files as int),
    ).put("pinned_bytes"@, JsonModel::integer(a.pinned_bytes as int)).put(
        "cassette_files"@,
        JsonModel::integer(a.cassette_files as int),
    ).put("cassette_bytes"@, JsonModel::integer(a.cassette_bytes as int)).put(
        "within_window_files"@,
        JsonModel::integer(a.within_window_files as int),
    ).put("within_window_bytes"@, JsonModel::integer(a.within_window_bytes as int))
}

/// Each member of an app's artifact row holds the count it is named after: what
/// can be reclaimed is never shown as what is pinned, nor files as bytes.
pub proof fn law_a_reclaim_row_names_what_it_shows(a: AppReclaim)
    ensures
        ({
            let shown = reclaim_row(a);
            &&& shown.get("app"@) == Some(JsonModel::Text(a.app@))
            &&& shown.get("files"@) == Some(JsonModel::integer(a.files as int))
            &&& shown.get("bytes"@) == Some(JsonModel::integer(a.bytes as int))
            &&& shown.get("reclaimable_files"@) == Some(
                JsonModel::integer(a.reclaimable_files as int),
            )
            &&& shown.get("reclaimable_bytes"@) == Some(
                JsonModel::integer(a.reclaimable_bytes as int),
            )
            &&& shown.get("pinned_files"@) == Some(JsonModel::integer(a.pinned_files as int))
            &&& shown.get("pinned_bytes"@) == Some(JsonModel::integer(a.pinned_bytes as int))
            &&& shown.get("cassette_files"@) == Some(JsonModel::integer(a.cassette_files as int))
            &&& shown.get("cassette_bytes"@) == Some(JsonModel::integer(a.cassette_bytes as int))
            &&& shown.get("within_window_files"@) == Some(
                JsonModel::integer(a.within_window_files as int),
            )
            &&& shown.get("within_window_bytes"@) == Some(
                JsonModel::integer(a.within_window_bytes as int),
            )
        }),
{
    reveal_strlit("app");
    reveal_strlit("files");
    reveal_strlit("bytes");
    reveal_strlit("reclaimable_files");
    reveal_strlit("reclaimable_bytes");
    reveal_strlit("pinned_files");
    reveal_strlit("pinned_bytes");
    reveal_strlit("cassette_files");
    reveal_strlit("cassette_bytes");
    reveal_strlit("within_window_files");
    reveal_strlit("within_window_bytes");
    assert("files"@[0] != "bytes"@[0]);
    assert("reclaimable_files"@[12] != "reclaimable_bytes"@[12]);
    assert("pinned_files"@[7] != "pinned_bytes"@[7]);
    assert("cassette_files"@[9] != "cassette_bytes"@[9]);
    assert("within_window_files"@[14] != "within_window_bytes"@[14]);
    let m0 = JsonModel::object();
    let v1 = JsonModel::Text(a.app@);
    lemma_put(m0, "app"@, v1);
    let m1 = m0.put("app"@, v1);
    let v2 = JsonModel::integer(a.files as int);
    lemma_put(m1, "files"@, v2);
    let m2 = m1.put("files"@, v2);
    let v3 = JsonModel::integer(a.bytes as int);
    lemma_put(m2, "bytes"@, v3);
    let m3 = m2.put("bytes"@, v3);
    let v4 = JsonModel::integer(a.reclaimable_files as int);
    lemma_put(m3, "reclaimable_files"@, v4);
    let m4 = m3.put("reclaimable_files"@, v4);
    let v5 = JsonModel::integer(a.reclaimable_bytes as int);
    lemma_put(m4, "reclaimable_bytes"@, v5);
    let m5 = m4.put("reclaimable_bytes"@, v5);
    let v6 = JsonModel::integer(a.pinned_files as int);
    lemma_put(m5, "pinned_files"@, v6);
    let m6 = m5.put("pinned_files"@, v6);
    let v7 = JsonModel::integer(a.pinned_bytes as int);
    lemma_put(m6, "pinned_bytes"@, v7);
    let m7 = m6.put("pinned_bytes"@, v7);
    let v8 = JsonModel::integer(a.cassette_files as int);
    lemma_put(m7, "cassette_files"@, v8);
    let m8 = m7.put("cassette_files"@, v8);
    let v9 = JsonModel::integer(a.cassette_bytes as int);
    lemma_put(m8, "cassette_bytes"@, v9);
    let m9 = m8.put("cassette_bytes"@, v9);
    let v10 = JsonModel::integer(a.within_window_files as int);
    lemma_put(m9, "within_window_files"@, v10);
    let m10 = m9.put("within_window_files"@, v10);
    let v11 = JsonModel::integer(a.within_window_bytes as int);
    lemma_put(m10, "within_window_bytes"@, v11);
}

fn reclaim_json(a: &AppReclaim) -> (r: Json)
    ensures
        r@ == reclaim_row(*a),
{
    let mut out = Json::object();
    out.set("app", Json::text(a.app.as_str()));
    out.set("files", Json::unsigned(a.files));
    out.set("bytes", Json::unsigned(a.bytes));
    out.set("reclaimable_files", Json::unsigned(a.reclaimable_files));
    out.set("reclaimable_bytes", Json::unsigned(a.reclaimable_bytes));
    out.set("pinned_files", Json::unsigned(a.pinned_files));
    out.set("pinned_bytes", Json::unsigned(a.pinned_bytes));
    out.set("cassette_files", Json::unsigned(a.cassette_files));
    out.set("cassette_bytes", Json::unsigned(a.cassette_bytes));
    out.set("within_window_files", Json::unsigned(a.within_window_files));
    out.set("within_window_bytes", Json::unsigned(a.within_window_bytes));
    out
}

/// What a walk of the artifact tree found.
#[derive(Debug)]
pub struct ArtifactScan {
    pub root: String,
    /// For each replayable revision that was looked at, whether its body is there.
    pub present: Vec<bool>,
    pub per_app: Vec<AppReclaim>,
}

/// The bytes each app retains.
pub open spec fn app_bytes(per_app: Seq<AppReclaim>) -> Seq<u64> {
    Seq::new(per_app.len(), |i: int| per_app[i].bytes)
}

/// The rows of all apps.
pub open spec fn reclaim_rows(per_app: Seq<AppReclaim>) -> Seq<JsonModel> {
    Seq::new(per_app.len(), |i: int| reclaim_row(per_app[i]))
}

/// Whether a walk can be reported: it looked at no more bodies than the limit, and
/// its bytes fit 64 bits. A skipped walk has nothing to report.
pub open spec fn reportable(skip_artifacts: Option<bool>, scan: ArtifactScan) -> bool {
    skip_artifacts == Some(true) || (scan.present@.len() <= MAX_BODIES_CHECKED && bytes_sum(
        app_bytes(scan.per_app@),
    ) <= u64::MAX)
}

/// The artifact block: only that nothing was scanned where the walk was skipped,
/// else what it found, with the bytes of all apps added up.
pub open spec fn artifact_block(skip_artifacts: Option<bool>, scan: ArtifactScan) -> JsonModel {
    if skip_artifacts == Some(true) {
        JsonModel::object().put("scanned"@, JsonModel::Bool(false))
    } else {
        JsonModel::object().put("scanned"@, JsonModel::Bool(true)).put(
            "root"@,
            JsonModel::Text(scan.root@),
        ).put("bodies_checked"@, JsonModel::integer(scan.present@.len() as int)).put(
            "check_limit"@,
            JsonModel::integer(5_000),
        ).put("per_app"@, JsonModel::Array(reclaim_rows(scan.per_app@))).put(
            "total_bytes"@,
            JsonModel::integer(bytes_sum(app_bytes(scan.per_app@)) as int),
        )
    }
}

/// A report can be made wherever the artifacts are skipped, or no more bodies were
/// looked for than one report may and their bytes add up within 64 bits.
pub proof fn law_a_scan_within_its_limits_is_reportable(
    skip_artifacts: Option<bool>,
    scan: ArtifactScan,
)
    ensures
        skip_artifacts == Some(true) ==> reportable(skip_artifacts, scan),
        skip_artifacts != Some(true) ==> (reportable(skip_artifacts, scan) <==> scan.present@.len()
            <= 5_000 && bytes_sum(app_bytes(scan.per_app@)) <= u64::MAX),
{
}

fn artifact_json(skip_artifacts: Option<bool>, scan: &ArtifactScan) -> (r: Option<Json>)
    ensures
        match r {
            Some(block) => reportable(skip_artifacts, *scan) && block@ == artifact_block(
                skip_artifacts,
                *scan,
            ),
            None => !reportable(skip_artifacts, *scan),
        },
{
    let mut out = Json::object();
    if let Some(true) = skip_artifacts {
        out.set("scanned", Json::Bool(false));
        return Some(out);
    }
    if scan.present.len() > MAX_BODIES_CHECKED as usize {
        return None;
    }
    let mut bytes: Vec<u64> = Vec::new();
    let mut rows: Vec<Json> = Vec::new();
    let mut i: usize = 0;
    while i < scan.per_app.len()
        invariant
            i <= scan.per_app@.len(),
            bytes@.len() == i,
            rows@.len() == i,
            forall|k: int| 0 <= k < i ==> #[trigger] bytes@[k] == scan.per_app@[k].bytes,
            forall|k: int| 0 <= k < i ==> (#[trigger] rows@[k])@ == reclaim_row(scan.per_app@[k]),
        decreases scan.per_app@.len() - i,
    {
        bytes.push(scan.per_app[i].bytes);
        rows.push(reclaim_json(&scan.per_app[i]));
        i += 1;
    }
    assert(bytes@ =~= app_bytes(scan.per_app@));
    assert(models(rows@) =~= reclaim_rows(scan.per_app@));
    let total: u64 = match total_bytes(&bytes) {
        Some(n) => n,
        None => return None,
    };
    out.set("scanned", Json::Bool(true));
    out.set("root", Json::text(scan.root.as_str()));
    out.set("bodies_checked", Json::unsigned(scan.present.len() as u64));
    out.set("check_limit", Json::integer(MAX_BODIES_CHECKED));
    out.set("per_app", Json::array(rows));
    out.set("total_bytes", Json::unsigned(total));
    Some(out)
}

/// Everything the report was gathered from.
#[derive(Debug)]
pub struct DoctorFacts {
    pub now: Instant,
    /// What the diagnosis found worth saying; empty on a healthy store.
    pub findings: Vec<Json>,
    /// What the artifact walk found; not looked at where it was skipped.
    pub artifacts: ArtifactScan,
    pub search_enabled: bool,
    /// Unknown, not zero, when the index could not be read.
    pub search_docs: Option<u64>,
    pub live_records: i64,
    pub tables: Vec<LedgerStat>,
    pub coverage: Vec<DatasetCoverage>,
    pub store: Json,
    pub unbounded_growth_days: i64,
}

/// The rows of all tables.
pub open spec fn table_rows(
    tables: Seq<LedgerStat>,
    cfg: StorageConfig,
    now: Instant,
) -> Seq<JsonModel> {
    Seq::new(tables.len(), |i: int| table_row(tables[i], cfg, now))
}

/// The rows of all datasets.
pub open spec fn coverage_rows(coverage: Seq<DatasetCoverage>) -> Seq<JsonModel> {
    Seq::new(coverage.len(), |i: int| coverage_row(coverage[i]))
}

/// The whole report.
pub open spec fn doctor_report(
    f: DoctorFacts,
    skip_artifacts: Option<bool>,
    cfg: StorageConfig,
) -> JsonModel {
    JsonModel::object().put("read_only"@, JsonModel::Bool(true)).put(
        "generated_at"@,
        JsonModel::Text(rfc3339_text(f.now@.0, f.now@.1)),
    ).put("healthy"@, JsonModel::Bool(f.findings@.len() == 0)).put(
        "findings"@,
        JsonModel::Array(models(f.findings@)),
    ).put("artifacts"@, artifact_block(skip_artifacts, f.artifacts)).put(
        "search"@,
        JsonModel::object().put("enabled"@, JsonModel::Bool(f.search_enabled)).put(
            "doc_count"@,
            JsonModel::int_or_null(
                match f.search_docs {
                    Some(n) => Some(n as int),
                    None => None,
                },
            ),
        ).put("live_records"@, JsonModel::integer(f.live_records as int)),
    ).put("tables"@, JsonModel::Array(table_rows(f.tables@, cfg, f.now))).put(
        "coverage"@,
        JsonModel::Array(coverage_rows(f.coverage@)),
    ).put("store"@, f.store@).put(
        "thresholds"@,
        JsonModel::object().put(
            "unbounded_growth_days"@,
            JsonModel::integer(f.unbounded_growth_days as int),
        ),
    )
}

/// Each part of the report holds what it is named after, and it is healthy exactly
/// where nothing was found.
pub proof fn law_a_report_names_what_it_shows(
    f: DoctorFacts,
    skip_artifacts: Option<bool>,
    cfg: StorageConfig,
)
    ensures
        ({
            let shown = doctor_report(f, skip_artifacts, cfg);
            &&& shown.get("read_only"@) == Some(JsonModel::Bool(true))
            &&& shown.get("generated_at"@) == Some(
                JsonModel::Text(rfc3339_text(f.now@.0, f.now@.1)),
            )
            &&& shown.get("healthy"@) == Some(JsonModel::Bool(f.findings@.len() == 0))
            &&& shown.get("findings"@) == Some(JsonModel::Array(models(f.findings@)))
            &&& shown.get("artifacts"@) == Some(artifact_block(skip_artifacts, f.artifacts))
            &&& shown.get("search"@) == Some(
                JsonModel::object().put("enabled"@, JsonModel::Bool(f.search_enabled)).put(
                    "doc_count"@,
                    JsonModel::int_or_null(
                        match f.search_docs { Some(n) => Some(n as int), None => None, },
                    ),
                ).put("live_records"@, JsonModel::integer(f.live_records as int)),
            )
            &&& shown.get("tables"@) == Some(JsonModel::Array(table_rows(f.tables@, cfg, f.now)))
            &&& shown.get("coverage"@) == Some(JsonModel::Array(coverage_rows(f.coverage@)))
            &&& shown.get("store"@) == Some(f.store@)
            &&& shown.get("thresholds"@) == Some(
                JsonModel::object().put(
                    "unbounded_growth_days"@,
                    JsonModel::integer(f.unbounded_growth_days as int),
                ),
            )
        }),
{
    reveal_strlit("read_only");
    reveal_strlit("generated_at");
    reveal_strlit("healthy");
    reveal_strlit("findings");
    reveal_strlit("artifacts");
    reveal_strlit("search");
    reveal_strlit("tables");
    reveal_strlit("coverage");
    reveal_strlit("store");
    reveal_strlit("thresholds");
    assert("read_only"@[0] != "artifacts"@[0]);
    assert("findings"@[0] != "coverage"@[0]);
    assert("search"@[0] != "tables"@[0]);
    let m0 = JsonModel::object();
    let v1 = JsonModel::Bool(true);
    lemma_put(m0, "read_only"@, v1);
    let m1 = m0.put("read_only"@, v1);
    let v2 = JsonModel::Text(rfc3339_text(f.now@.0, f.now@.1));
    lemma_put(m1, "generated_at"@, v2);
    let m2 = m1.put("generated_at"@, v2);
    let v3 = JsonModel::Bool(f.findings@.len() == 0);
    lemma_put(m2, "healthy"@, v3);
    let m3 = m2.put("healthy"@, v3);
    let v4 = JsonModel::Array(models(f.findings@));
    lemma_put(m3, "findings"@, v4);
    let m4 = m3.put("findings"@, v4);
    let v5 = artifact_block(skip_artifacts, f.artifacts);
    lemma_put(m4, "artifacts"@, v5);
    let m5 = m4.put("artifacts"@, v5);
    let v6 = JsonModel::object().put("enabled"@, JsonModel::Bool(f.search_enabled)).put(
        "doc_count"@,
        JsonModel::int_or_null(match f.search_docs { Some(n) => Some(n as int), None => None, }),
    ).put("live_records"@, JsonModel::integer(f.live_records as int));
    lemma_put(m5, "search"@, v6);
    let m6 = m5.put("search"@, v6);
    let v7 = JsonModel::Array(table_rows(f.tables@, cfg, f.now));
    lemma_put(m6, "tables"@, v7);
    let m7 = m6.put("tables"@, v7);
    let v8 = JsonModel::Array(coverage_rows(f.coverage@));
    lemma_put(m7, "coverage"@, v8);
    let m8 = m7.put("coverage"@, v8);
    let v9 = f.store@;
    lemma_put(m8, "store"@, v9);
    let m9 = m8.put("store"@, v9);
    let v10 = JsonModel::object().put(
        "unbounded_growth_days"@,
        JsonModel::integer(f.unbounded_growth_days as int),
    );
    lemma_put(m9, "thresholds"@, v10);
}

/// The store integrity report. A store without findings is healthy, and only one
/// without findings is. There is no report of a walk that looked at more bodies
/// than the limit, or whose bytes outgrow 64 bits.
pub fn datasets_doctor(
    facts: &DoctorFacts,
    skip_artifacts: Option<bool>,
    cfg: &StorageConfig,
) -> (r: Option<Json>)
    ensures
        match r {
            Some(report) => reportable(skip_artifacts, facts.artifacts) && report@ == doctor_report(
                *facts,
                skip_artifacts,
                *cfg,
            ),
            None => !reportable(skip_artifacts, facts.artifacts),
        },
{
    let artifacts = match artifact_json(skip_artifacts, &facts.artifacts) {
        Some(block) => block,
        None => return None,
    };
    let mut findings: Vec<Json> = Vec::new();
    let mut i: usize = 0;
    while i < facts.findings.len()
        invariant
            i <= facts.findings@.len(),
            findings@.len() == i,
            forall|k: int| 0 <= k < i ==> (#[trigger] findings@[k])@ == facts.findings@[k]@,
        decreases facts.findings@.len() - i,
    {
        findings.push(facts.findings[i].copy());
        i += 1;
    }
    assert(models(findings@) =~= models(facts.findings@));
    let mut tables: Vec<Json> = Vec::new();
    let mut i: usize = 0;
    while i < facts.tables.len()
        invariant
            i <= facts.tables@.len(),
            tables@.len() == i,
            forall|k: int|
                0 <= k < i ==> (#[trigger] tables@[k])@ == table_row(
                    facts.tables@[k],
                    *cfg,
                    facts.now,
                ),
        decreases facts.tables@.len() - i,
    {
        tables.push(table_growth(&facts.tables[i], cfg, facts.now));
        i += 1;
    }
    assert(models(tables@) =~= table_rows(facts.tables@, *cfg, facts.now));
    let mut coverage: Vec<Json> = Vec::new();
    let mut i: usize = 0;
    while i < facts.coverage.len()
        invariant
            i <= facts.coverage@.len(),
            coverage@.len() == i,
            forall|k: int|
                0 <= k < i ==> (#[trigger] coverage@[k])@ == coverage_row(facts.coverage@[k]),
        decreases facts.coverage@.len() - i,
    {
        coverage.push(coverage_json(&facts.coverage[i]));
        i += 1;
    }
    assert(models(coverage@) =~= coverage_rows(facts.coverage@));
    let mut search = Json::object();
    search.set("enabled", Json::Bool(facts.search_enabled));
    search.set(
        "doc_count",
        match facts.search_docs {
            Some(n) => Json::unsigned(n),
            None => Json::Null,
        },
    );
    search.set("live_records", Json::integer(facts.live_records));
    let mut thresholds = Json::object();
    thresholds.set("unbounded_growth_days", Json::integer(facts.unbounded_growth_days));
    let mut out = Json::object();
    out.set("read_only", Json::Bool(true));
    out.set("generated_at", Json::Text(write_rfc3339(facts.now)));
    out.set("healthy", Json::Bool(facts.findings.len() == 0));
    out.set("findings", Json::array(findings));
    out.set("artifacts", artifacts);
    out.set("search", search);
    out.set("tables", Json::array(tables));
    out.set("coverage", Json::array(coverage));
    out.set("store", facts.store.copy());
    out.set("thresholds", thresholds);
    Some(out)
}

/// What the report says of the artifacts: it was scanned unless the request asked
/// to skip it; then it counts the bodies that were looked for, at most the limit,
/// and its total is the sum over the apps it lists.
pub proof fn law_artifacts_are_scanned_unless_skipped(
    skip_artifacts: Option<bool>,
    scan: ArtifactScan,
)
    requires
        reportable(skip_artifacts, scan),
    ensures
        artifact_block(skip_artifacts, scan).get("scanned"@) == Some(
            JsonModel::Bool(skip_artifacts != Some(true)),
        ),
        skip_artifacts == Some(true) ==> artifact_block(skip_artifacts, scan)
            == JsonModel::object().put("scanned"@, JsonModel::Bool(false)),
        skip_artifacts != Some(true) ==> {
            &&& scan.present@.len() <= 5_000
            &&& artifact_block(skip_artifacts, scan).get("bodies_checked"@) == Some(
                JsonModel::integer(scan.present@.len() as int),
            )
            &&& artifact_block(skip_artifacts, scan).get("per_app"@) == Some(
                JsonModel::Array(reclaim_rows(scan.per_app@)),
            )
            &&& artifact_block(skip_artifacts, scan).get("total_bytes"@) == Some(
                JsonModel::integer(bytes_sum(app_bytes(scan.per_app@)) as int),
            )
        },
{
    reveal_strlit("scanned");
    reveal_strlit("root");
    reveal_strlit("bodies_checked");
    reveal_strlit("check_limit");
    reveal_strlit("per_app");
    reveal_strlit("total_bytes");
    assert("scanned"@[0] != "per_app"@[0]);
    assert("check_limit"@[0] != "total_bytes"@[0]);
    let m0 = JsonModel::object();
    if skip_artifacts == Some(true) {
        law_read_after_put(m0, "scanned"@, JsonModel::Bool(false), "scanned"@);
    } else {
        let m1 = m0.put("scanned"@, JsonModel::Bool(true));
        let root = JsonModel::Text(scan.root@);
        let m2 = m1.put("root"@, root);
        let checked = JsonModel::integer(scan.present@.len() as int);
        let m3 = m2.put("bodies_checked"@, checked);
        let limit = JsonModel::integer(5_000);
        let m4 = m3.put("check_limit"@, limit);
        let rows = JsonModel::Array(reclaim_rows(scan.per_app@));
        let m5 = m4.put("per_app"@, rows);
        let total = JsonModel::integer(bytes_sum(app_bytes(scan.per_app@)) as int);
        assert forall|k: Seq<char>|
            k == "scanned"@ || k == "bodies_checked"@ || k == "per_app"@ || k
                == "total_bytes"@ implies #[trigger] m5.put("total_bytes"@, total).get(k) == (if k
            == "scanned"@ {
            Some(JsonModel::Bool(true))
        } else if k == "bodies_checked"@ {
            Some(checked)
        } else if k == "per_app"@ {
            Some(rows)
        } else {
            Some(total)
        }) by {
            law_read_after_put(m0, "scanned"@, JsonModel::Bool(true), k);
            law_read_after_put(m1, "root"@, root, k);
            law_read_after_put(m2, "bodies_checked"@, checked, k);
            law_read_after_put(m3, "check_limit"@, limit, k);
            law_read_after_put(m4, "per_app"@, rows, k);
            law_read_after_put(m5, "total_bytes"@, total, k);
        }
    }
}

/// A microsecond figure as milliseconds, with as many decimals as it needs and
/// at least one.
pub open spec fn ms_text(micros: nat) -> Seq<char> {
    let part = micros % 1_000;
    decimal((micros / 1_000) as int) + seq!['.'] + if part % 100 == 0 {
        padded(part / 100, 1)
    } else if part % 10 == 0 {
        padded(part / 10, 2)
    } else {
        padded(part, 3)
    }
}

/// Milliseconds are written with their whole part, a point, and as many digits as
/// their thousandths take: one to three, the last of several never a zero.
pub proof fn law_milliseconds_are_written_in_full(micros: nat)
    ensures
        ({
            let whole = decimal((micros / 1_000) as int);
            let text = ms_text(micros);
            let part = text.skip(whole.len() as int + 1);
            &&& text.take(whole.len() as int) == whole
            &&& text[whole.len() as int] == '.'
            &&& 1 <= part.len() <= 3
            &&& part.len() == 1 ==> 100 * value(part) == micros % 1_000
            &&& part.len() == 2 ==> 10 * value(part) == micros % 1_000 && value(part) % 10 != 0
            &&& part.len() == 3 ==> value(part) == micros % 1_000 && value(part) % 10 != 0
        }),
{
    let whole = decimal((micros / 1_000) as int);
    let part = micros % 1_000;
    reveal_with_fuel(tens, 4);
    assert(tens(1) == 10 && tens(2) == 100 && tens(3) == 1_000);
    law_padding_keeps_the_number(part / 100, 1);
    law_padding_keeps_the_number(part / 10, 2);
    law_padding_keeps_the_number(part, 3);
    let tail = if part % 100 == 0 {
        padded(part / 100, 1)
    } else if part % 10 == 0 {
        padded(part / 10, 2)
    } else {
        padded(part, 3)
    };
    assert(ms_text(micros).take(whole.len() as int) =~= whole);
    assert(ms_text(micros).skip(whole.len() as int + 1) =~= tail);
}

/// Formats a microsecond figure as a JSON number of milliseconds.
pub fn ms(micros: u64) -> (r: String)
    ensures
        r@ == ms_text(micros as nat),
{
    let mut out = show_u64(micros / 1_000);
    out.push('.');
    let part: u64 = micros % 1_000;
    let hundreds: u8 = (part / 100) as u8;
    let tens: u8 = ((part / 10) % 10) as u8;
    let ones: u8 = (part % 10) as u8;
    out.push((48 + hundreds) as char);
    reveal_with_fuel(padded, 4);
    if part % 100 != 0 {
        out.push((48 + tens) as char);
        if part % 10 != 0 {
            out.push((48 + ones) as char);
        }
    }
    assert(out@ =~= ms_text(micros as nat));
    out
}

/// One key's row in the report.
pub open spec fn operation_row(r: KeyReport) -> JsonModel {
    JsonModel::object().put("op"@, JsonModel::Text(r.op@)).put(
        "table"@,
        JsonModel::Text(r.table@),
    ).put("phase"@, JsonModel::Text(r.phase@)).put(
        "samples"@,
        JsonModel::integer(r.samples as int),
    ).put("lifetime"@, JsonModel::integer(r.lifetime as int)).put(
        "window_wrapped"@,
        JsonModel::Bool(r.wrapped),
    ).put("window_secs"@, JsonModel::integer(r.window_secs as int)).put(
        "window_rows"@,
        JsonModel::integer(r.window_rows as int),
    ).put("p50_ms"@, JsonModel::Number(ms_text(r.p50_micros as nat))).put(
        "p95_ms"@,
        JsonModel::Number(ms_text(r.p95_micros as nat)),
    ).put("worst_ms"@, JsonModel::Number(ms_text(r.worst_micros as nat))).put(
        "slow_line_ms"@,
        JsonModel::Number(ms_text(r.slow_line_micros as nat)),
    ).put("slow_lifetime"@, JsonModel::integer(r.slow_lifetime as int)).put(
        "busy_lifetime"@,
        JsonModel::integer(r.busy_lifetime as int),
    ).put("errors_lifetime"@, JsonModel::integer(r.errors_lifetime as int)).put(
        "rows_lifetime"@,
        JsonModel::integer(r.rows_lifetime as int),
    )
}

/// Each member of an operation row holds the measure it is named after.
pub proof fn law_an_operation_row_names_what_it_shows(r: KeyReport)
    ensures
        ({
            let shown = operation_row(r);
            &&& shown.get("op"@) == Some(JsonModel::Text(r.op@))
            &&& shown.get("table"@) == Some(JsonModel::Text(r.table@))
            &&& shown.get("phase"@) == Some(JsonModel::Text(r.phase@))
            &&& shown.get("samples"@) == Some(JsonModel::integer(r.samples as int))
            &&& shown.get("lifetime"@) == Some(JsonModel::integer(r.lifetime as int))
            &&& shown.get("window_wrapped"@) == Some(JsonModel::Bool(r.wrapped))
            &&& shown.get("window_secs"@) == Some(JsonModel::integer(r.window_secs as int))
            &&& shown.get("window_rows"@) == Some(JsonModel::integer(r.window_rows as int))
            &&& shown.get("p50_ms"@) == Some(JsonModel::Number(ms_text(r.p50_micros as nat)))
            &&& shown.get("p95_ms"@) == Some(JsonModel::Number(ms_text(r.p95_micros as nat)))
            &&& shown.get("worst_ms"@) == Some(JsonModel::Number(ms_text(r.worst_micros as nat)))
            &&& shown.get("slow_line_ms"@) == Some(
                JsonModel::Number(ms_text(r.slow_line_micros as nat)),
            )
            &&& shown.get("slow_lifetime"@) == Some(JsonModel::integer(r.slow_lifetime as int))
            &&& shown.get("busy_lifetime"@) == Some(JsonModel::integer(r.busy_lifetime as int))
            &&& shown.get("errors_lifetime"@) == Some(JsonModel::integer(r.errors_lifetime as int))
            &&& shown.get("rows_lifetime"@) == Some(JsonModel::integer(r.rows_lifetime as int))
        }),
{
    reveal_strlit("op");
    reveal_strlit("table");
    reveal_strlit("phase");
    reveal_strlit("samples");
    reveal_strlit("lifetime");
    reveal_strlit("window_wrapped");
    reveal_strlit("window_secs");
    reveal_strlit("window_rows");
    reveal_strlit("p50_ms");
    reveal_strlit("p95_ms");
    reveal_strlit("worst_ms");
    reveal_strlit("slow_line_ms");
    reveal_strlit("slow_lifetime");
    reveal_strlit("busy_lifetime");
    reveal_strlit("errors_lifetime");
    reveal_strlit("rows_lifetime");
    assert("table"@[0] != "phase"@[0]);
    assert("lifetime"@[0] != "worst_ms"@[0]);
    assert("window_secs"@[7] != "window_rows"@[7]);
    assert("p50_ms"@[1] != "p95_ms"@[1]);
    assert("slow_lifetime"@[0] != "busy_lifetime"@[0]);
    assert("slow_lifetime"@[0] != "rows_lifetime"@[0]);
    assert("busy_lifetime"@[0] != "rows_lifetime"@[0]);
    let m0 = JsonModel::object();
    let v1 = JsonModel::Text(r.op@);
    lemma_put(m0, "op"@, v1);
    let m1 = m0.put("op"@, v1);
    let v2 = JsonModel::Text(r.table@);
    lemma_put(m1, "table"@, v2);
    let m2 = m1.put("table"@, v2);
    let v3 = JsonModel::Text(r.phase@);
    lemma_put(m2, "phase"@, v3);
    let m3 = m2.put("phase"@, v3);
    let v4 = JsonModel::integer(r.samples as int);
    lemma_put(m3, "samples"@, v4);
    let m4 = m3.put("samples"@, v4);
    let v5 = JsonModel::integer(r.lifetime as int);
    lemma_put(m4, "lifetime"@, v5);
    let m5 = m4.put("lifetime"@, v5);
    let v6 = JsonModel::Bool(r.wrapped);
    lemma_put(m5, "window_wrapped"@, v6);
    let m6 = m5.put("window_wrapped"@, v6);
    let v7 = JsonModel::integer(r.window_secs as int);
    lemma_put(m6, "window_secs"@, v7);
    let m7 = m6.put("window_secs"@, v7);
    let v8 = JsonModel::integer(r.window_rows as int);
    lemma_put(m7, "window_rows"@, v8);
    let m8 = m7.put("window_rows"@, v8);
    let v9 = JsonModel::Number(ms_text(r.p50_micros as nat));
    lemma_put(m8, "p50_ms"@, v9);
    let m9 = m8.put("p50_ms"@, v9);
    let v10 = JsonModel::Number(ms_text(r.p95_micros as nat));
    lemma_put(m9, "p95_ms"@, v10);
    let m10 = m9.put("p95_ms"@, v10);
    let v11 = JsonModel::Number(ms_text(r.worst_micros as nat));
    lemma_put(m10, "worst_ms"@, v11);
    let m11 = m10.put("worst_ms"@, v11);
    let v12 = JsonModel::Number(ms_text(r.slow_line_micros as nat));
    lemma_put(m11, "slow_line_ms"@, v12);
    let m12 = m11.put("slow_line_ms"@, v12);
    let v13 = JsonModel::integer(r.slow_lifetime as int);
    lemma_put(m12, "slow_lifetime"@, v13);
    let m13 = m12.put("slow_lifetime"@, v13);
    let v14 = JsonModel::integer(r.busy_lifetime as int);
    lemma_put(m13, "busy_lifetime"@, v14);
    let m14 = m13.put("busy_lifetime"@, v14);
    let v15 = JsonModel::integer(r.errors_lifetime as int);
    lemma_put(m14, "errors_lifetime"@, v15);
    let m15 = m14.put("errors_lifetime"@, v15);
    let v16 = JsonModel::integer(r.rows_lifetime as int);
    lemma_put(m15, "rows_lifetime"@, v16);
}

fn operation_json(r: &KeyReport) -> (out: Json)
    ensures
        out@ == operation_row(*r),
{
    let mut out = Json::object();
    out.set("op", Json::text(r.op.as_str()));
    out.set("table", Json::text(r.table.as_str()));
    out.set("phase", Json::text(r.phase.as_str()));
    out.set("samples", Json::unsigned(r.samples));
    out.set("lifetime", Json::unsigned(r.lifetime));
    out.set("window_wrapped", Json::Bool(r.wrapped));
    out.set("window_secs", Json::unsigned(r.window_secs));
    out.set("window_rows", Json::unsigned(r.window_rows));
    out.set("p50_ms", Json::Number(ms(r.p50_micros)));
    out.set("p95_ms", Json::Number(ms(r.p95_micros)));
    out.set("worst_ms", Json::Number(ms(r.worst_micros)));
    out.set("slow_line_ms", Json::Number(ms(r.slow_line_micros)));
    out.set("slow_lifetime", Json::unsigned(r.slow_lifetime));
    out.set("busy_lifetime", Json::unsigned(r.busy_lifetime));
    out.set("errors_lifetime", Json::unsigned(r.errors_lifetime));
    out.set("rows_lifetime", Json::unsigned(r.rows_lifetime));
    out
}

/// The rows of all keys.
pub open spec fn operation_rows(reports: Seq<KeyReport>) -> Seq<JsonModel> {
    Seq::new(reports.len(), |i: int| operation_row(reports[i]))
}

/// The pass counts grouped by task.
pub open spec fn totals_of(counts: Seq<PassCount>) -> JsonModel
    decreases counts.len(),
{
    if counts.len() == 0 {
        JsonModel::object()
    } else {
        let so_far = totals_of(counts.drop_last());
        let c = counts.last();
        let group = match so_far.get(c.task@) {
            Some(g) => g,
            None => JsonModel::object(),
        };
        so_far.put(c.task@, group.put(c.outcome@, JsonModel::integer(c.count as int)))
    }
}

proof fn lemma_totals(counts: Seq<PassCount>, task: Seq<char>)
    ensures
        totals_of(counts) is Object,
        totals_of(counts).get(task) matches Some(g) ==> g is Object,
    decreases counts.len(),
{
    if counts.len() > 0 {
        lemma_totals(counts.drop_last(), task);
        lemma_totals(counts.drop_last(), counts.last().task@);
        let c = counts.last();
        let so_far = totals_of(counts.drop_last());
        let group = match so_far.get(c.task@) {
            Some(g) => g,
            None => JsonModel::object(),
        };
        let n = JsonModel::integer(c.count as int);
        lemma_put(group, c.outcome@, n);
        lemma_put(so_far, c.task@, group.put(c.outcome@, n));
    }
}

/// The totals hold every count under its task and its outcome; of two for the
/// same task and outcome the later one stands, and nothing else is there.
pub proof fn law_pass_totals_hold_every_count(
    counts: Seq<PassCount>,
    task: Seq<char>,
    outcome: Seq<char>,
)
    ensures
        match totals_of(counts).get(task) {
            None => forall|i: int| 0 <= i < counts.len() ==> (#[trigger] counts[i]).task@ != task,
            Some(g) => match g.get(outcome) {
                None => forall|i: int|
                    0 <= i < counts.len() ==> (#[trigger] counts[i]).task@ != task
                        || counts[i].outcome@ != outcome,
                Some(n) => exists|i: int|
                    {
                        &&& 0 <= i < counts.len()
                        &&& (#[trigger] counts[i]).task@ == task && counts[i].outcome@ == outcome
                        &&& n == JsonModel::integer(counts[i].count as int)
                        &&& forall|j: int|
                            i < j < counts.len() ==> (#[trigger] counts[j]).task@ != task
                                || counts[j].outcome@ != outcome
                    },
            },
        },
    decreases counts.len(),
{
    if counts.len() > 0 {
        let rest = counts.drop_last();
        let c = counts.last();
        law_pass_totals_hold_every_count(rest, task, outcome);
        lemma_totals(rest, task);
        lemma_totals(rest, c.task@);
        let so_far = totals_of(rest);
        let group = match so_far.get(c.task@) {
            Some(g) => g,
            None => JsonModel::object(),
        };
        let n = JsonModel::integer(c.count as int);
        lemma_put(group, c.outcome@, n);
        lemma_put(so_far, c.task@, group.put(c.outcome@, n));
        assert(forall|i: int| 0 <= i < rest.len() ==> #[trigger] counts[i] == rest[i]);
        if c.task@ == task && c.outcome@ == outcome {
            assert(counts[counts.len() - 1] == c);
        } else if so_far.get(task) is Some && so_far.get(task)->0.get(outcome) is Some {
            let had = so_far.get(task)->0.get(outcome)->0;
            let i = choose|i: int|
                {
                    &&& 0 <= i < rest.len()
                    &&& (#[trigger] rest[i]).task@ == task && rest[i].outcome@ == outcome
                    &&& had == JsonModel::integer(rest[i].count as int)
                    &&& forall|j: int|
                        i < j < rest.len() ==> (#[trigger] rest[j]).task@ != task
                            || rest[j].outcome@ != outcome
                };
            assert(counts[i] == rest[i]);
        }
    }
}

/// Groups pass counts by task.
pub fn pass_totals(counts: &[PassCount]) -> (r: Json)
    ensures
        r@ == totals_of(counts@),
{
    let mut out = Json::object();
    let mut i: usize = 0;
    assert(counts@.take(0) =~= Seq::<PassCount>::empty());
    while i < counts.len()
        invariant
            i <= counts@.len(),
            out@ == totals_of(counts@.take(i as int)),
        decreases counts@.len() - i,
    {
        assert(counts@.take(i + 1).drop_last() =~= counts@.take(i as int));
        let c = &counts[i];
        let mut group = match out.get(c.task.as_str()) {
            Some(g) => g.copy(),
            None => Json::object(),
        };
        group.set(c.outcome, Json::unsigned(c.count));
        out.set(c.task.as_str(), group);
        i += 1;
    }
    assert(counts@.take(counts@.len() as int) =~= counts@);
    out
}

/// What the store telemetry does not cover.
pub const UNMEASURED: &'static str =
    "A partial census, stated: only the families in `measured` are instrumented. Schedules, watches, triggers, deliveries, saved searches, the HTTP and research caches, and the search index are not measured at all — a percentile here says nothing about them.";

/// What the activity reading counts.
pub const ACTIVITY_MEANS: &'static str =
    "in-flight foreground work: HTTP requests being handled plus jobs                 currently running. A pass runs only when this reads 0 (and the pool is not                 saturated) and the minimum interval has elapsed";

/// What the outcomes of a maintenance pass mean.
pub const OUTCOMES_MEAN: &'static str =
    "ran = it executed (work=0 is still a run), deferred = the activity gate said busy and no escalation rung applied, failed = attempted and errored";

pub const BY_P50_MS: &'static str =
    "sort the key's window ascending, take element ceil(0.50*n) — an observed sample, never an interpolation";

pub const BY_P95_MS: &'static str =
    "sort the key's window ascending, take element ceil(0.95*n); read it with `samples`, since a p95 over 7 samples IS the 7th sample";

pub const BY_WINDOW_SECS: &'static str =
    "newest minus oldest record stamp in the key's window, whole seconds; 0 means the window spans under a second, not that it is empty";

pub const BY_SLOW_LIFETIME: &'static str =
    "operations at or past `slow_line_ms` for this key, counted since process start — a LIFETIME count, unaffected by the window wrapping";

pub const BY_WORST_MS: &'static str =
    "the largest single duration since process start, kept outside the window so 'worst ever' does not evaporate when the ring wraps";

pub const BY_PHASE: &'static str =
    "`acquire` is the wait for a pooled connection, `execute` is the statements; they are never summed, because one indicts pool sizing and the other indicts the query";

pub const BY_BUSY_LIFETIME: &'static str =
    "operations that ended in SQLITE_BUSY/SQLITE_LOCKED (or a pool timeout on acquire), classified by the driver's result code, never by message text";

pub const BY_SIZE_MAIN_BYTES: &'static str =
    "PRAGMA page_count x PRAGMA page_size — pages ALLOCATED, not bytes in live rows; the difference is exactly `free_bytes`";

pub const BY_SIZE_WAL_BYTES: &'static str =
    "the -wal sidecar's size on disk (stat), which is the harm figure the maintenance gate escalates on";

/// How each figure of the report is computed again.
pub open spec fn derivations() -> JsonModel {
    JsonModel::object()
        .put("p50_ms"@, JsonModel::Text(BY_P50_MS@))
        .put("p95_ms"@, JsonModel::Text(BY_P95_MS@))
        .put("window_secs"@, JsonModel::Text(BY_WINDOW_SECS@))
        .put("slow_lifetime"@, JsonModel::Text(BY_SLOW_LIFETIME@))
        .put("worst_ms"@, JsonModel::Text(BY_WORST_MS@))
        .put("phase"@, JsonModel::Text(BY_PHASE@))
        .put("busy_lifetime"@, JsonModel::Text(BY_BUSY_LIFETIME@))
        .put("size.main_bytes"@, JsonModel::Text(BY_SIZE_MAIN_BYTES@))
        .put("size.wal_bytes"@, JsonModel::Text(BY_SIZE_WAL_BYTES@))
}

/// Each figure is explained by its own derivation.
pub proof fn law_each_figure_is_explained_by_its_own_derivation()
    ensures
        derivations().get("p50_ms"@) == Some(JsonModel::Text(BY_P50_MS@)),
        derivations().get("p95_ms"@) == Some(JsonModel::Text(BY_P95_MS@)),
        derivations().get("window_secs"@) == Some(JsonModel::Text(BY_WINDOW_SECS@)),
        derivations().get("slow_lifetime"@) == Some(JsonModel::Text(BY_SLOW_LIFETIME@)),
        derivations().get("worst_ms"@) == Some(JsonModel::Text(BY_WORST_MS@)),
        derivations().get("phase"@) == Some(JsonModel::Text(BY_PHASE@)),
        derivations().get("busy_lifetime"@) == Some(JsonModel::Text(BY_BUSY_LIFETIME@)),
        derivations().get("size.main_bytes"@) == Some(JsonModel::Text(BY_SIZE_MAIN_BYTES@)),
        derivations().get("size.wal_bytes"@) == Some(JsonModel::Text(BY_SIZE_WAL_BYTES@)),
{
    reveal_strlit("p50_ms");
    reveal_strlit("p95_ms");
    reveal_strlit("window_secs");
    reveal_strlit("slow_lifetime");
    reveal_strlit("worst_ms");
    reveal_strlit("phase");
    reveal_strlit("busy_lifetime");
    reveal_strlit("size.main_bytes");
    reveal_strlit("size.wal_bytes");
    assert("p50_ms"@[1] != "p95_ms"@[1]);
    assert("slow_lifetime"@[0] != "busy_lifetime"@[0]);
    let m0 = JsonModel::object();
    lemma_put(m0, "p50_ms"@, JsonModel::Text(BY_P50_MS@));
    let m1 = m0.put("p50_ms"@, JsonModel::Text(BY_P50_MS@));
    lemma_put(m1, "p95_ms"@, JsonModel::Text(BY_P95_MS@));
    let m2 = m1.put("p95_ms"@, JsonModel::Text(BY_P95_MS@));
    lemma_put(m2, "window_secs"@, JsonModel::Text(BY_WINDOW_SECS@));
    let m3 = m2.put("window_secs"@, JsonModel::Text(BY_WINDOW_SECS@));
    lemma_put(m3, "slow_lifetime"@, JsonModel::Text(BY_SLOW_LIFETIME@));
    let m4 = m3.put("slow_lifetime"@, JsonModel::Text(BY_SLOW_LIFETIME@));
    lemma_put(m4, "worst_ms"@, JsonModel::Text(BY_WORST_MS@));
    let m5 = m4.put("worst_ms"@, JsonModel::Text(BY_WORST_MS@));
    lemma_put(m5, "phase"@, JsonModel::Text(BY_PHASE@));
    let m6 = m5.put("phase"@, JsonModel::Text(BY_PHASE@));
    lemma_put(m6, "busy_lifetime"@, JsonModel::Text(BY_BUSY_LIFETIME@));
    let m7 = m6.put("busy_lifetime"@, JsonModel::Text(BY_BUSY_LIFETIME@));
    lemma_put(m7, "size.main_bytes"@, JsonModel::Text(BY_SIZE_MAIN_BYTES@));
    let m8 = m7.put("size.main_bytes"@, JsonModel::Text(BY_SIZE_MAIN_BYTES@));
    lemma_put(m8, "size.wal_bytes"@, JsonModel::Text(BY_SIZE_WAL_BYTES@));
}

fn derivations_json() -> (r: Json)
    ensures
        r@ == derivations(),
{
    let mut out = Json::object();
    out.set("p50_ms", Json::text(BY_P50_MS));
    out.set("p95_ms", Json::text(BY_P95_MS));
    out.set("window_secs", Json::text(BY_WINDOW_SECS));
    out.set("slow_lifetime", Json::text(BY_SLOW_LIFETIME));
    out.set("worst_ms", Json::text(BY_WORST_MS));
    out.set("phase", Json::text(BY_PHASE));
    out.set("busy_lifetime", Json::text(BY_BUSY_LIFETIME));
    out.set("size.main_bytes", Json::text(BY_SIZE_MAIN_BYTES));
    out.set("size.wal_bytes", Json::text(BY_SIZE_WAL_BYTES));
    out
}

/// The size block.
pub open spec fn size_block(s: StoreSize) -> JsonModel {
    JsonModel::object()
        .put("page_size"@, JsonModel::integer(s.page_size as int))
        .put("page_count"@, JsonModel::integer(s.page_count as int))
        .put("freelist_pages"@, JsonModel::integer(s.freelist_pages as int))
        .put("main_bytes"@, JsonModel::integer(s.main_bytes as int))
        .put("free_bytes"@, JsonModel::integer(s.free_bytes as int))
        .put("wal_bytes"@, JsonModel::integer(s.wal_bytes as int))
}

/// Each member of the size block holds the size it is named after.
pub proof fn law_a_size_block_names_what_it_shows(s: StoreSize)
    ensures
        ({
            let shown = size_block(s);
            &&& shown.get("page_size"@) == Some(JsonModel::integer(s.page_size as int))
            &&& shown.get("page_count"@) == Some(JsonModel::integer(s.page_count as int))
            &&& shown.get("freelist_pages"@) == Some(JsonModel::integer(s.freelist_pages as int))
            &&& shown.get("main_bytes"@) == Some(JsonModel::integer(s.main_bytes as int))
            &&& shown.get("free_bytes"@) == Some(JsonModel::integer(s.free_bytes as int))
            &&& shown.get("wal_bytes"@) == Some(JsonModel::integer(s.wal_bytes as int))
        }),
{
    reveal_strlit("page_size");
    reveal_strlit("page_count");
    reveal_strlit("freelist_pages");
    reveal_strlit("main_bytes");
    reveal_strlit("free_bytes");
    reveal_strlit("wal_bytes");
    assert("page_size"@[0] != "wal_bytes"@[0]);
    assert("page_count"@[0] != "main_bytes"@[0]);
    assert("page_count"@[0] != "free_bytes"@[0]);
    assert("main_bytes"@[0] != "free_bytes"@[0]);
    let m0 = JsonModel::object();
    let v1 = JsonModel::integer(s.page_size as int);
    lemma_put(m0, "page_size"@, v1);
    let m1 = m0.put("page_size"@, v1);
    let v2 = JsonModel::integer(s.page_count as int);
    lemma_put(m1, "page_count"@, v2);
    let m2 = m1.put("page_count"@, v2);
    let v3 = JsonModel::integer(s.freelist_pages as int);
    lemma_put(m2, "freelist_pages"@, v3);
    let m3 = m2.put("freelist_pages"@, v3);
    let v4 = JsonModel::integer(s.main_bytes as int);
    lemma_put(m3, "main_bytes"@, v4);
    let m4 = m3.put("main_bytes"@, v4);
    let v5 = JsonModel::integer(s.free_bytes as int);
    lemma_put(m4, "free_bytes"@, v5);
    let m5 = m4.put("free_bytes"@, v5);
    let v6 = JsonModel::integer(s.wal_bytes as int);
    lemma_put(m5, "wal_bytes"@, v6);
}

fn size_json(s: &StoreSize) -> (r: Json)
    ensures
        r@ == size_block(*s),
{
    let mut out = Json::object();
    out.set("page_size", Json::unsigned(s.page_size));
    out.set("page_count", Json::unsigned(s.page_count));
    out.set("freelist_pages", Json::unsigned(s.freelist_pages));
    out.set("main_bytes", Json::unsigned(s.main_bytes));
    out.set("free_bytes", Json::unsigned(s.free_bytes));
    out.set("wal_bytes", Json::unsigned(s.wal_bytes));
    out
}

/// The texts as JSON.
pub open spec fn texts_json(names: Seq<String>) -> Seq<JsonModel> {
    Seq::new(names.len(), |i: int| JsonModel::Text(names[i]@))
}

/// The store's report on itself.
pub open spec fn store_block(
    measured: Seq<String>,
    reports: Seq<KeyReport>,
    size: StoreSize,
    recent: JsonModel,
    counts: Seq<PassCount>,
    activity: i64,
    pool_saturated: bool,
) -> JsonModel {
    JsonModel::object().put("measured"@, JsonModel::Array(texts_json(measured))).put(
        "unmeasured"@,
        JsonModel::Text(UNMEASURED@),
    ).put("derived_by"@, derivations()).put("size"@, size_block(size)).put(
        "activity"@,
        JsonModel::object().put(
            "inflight"@,
            JsonModel::integer(
                if activity < 0 {
                    0
                } else {
                    activity as int
                },
            ),
        ).put("inflight_raw"@, JsonModel::integer(activity as int)).put(
            "pool_saturated"@,
            JsonModel::Bool(pool_saturated),
        ).put("means"@, JsonModel::Text(ACTIVITY_MEANS@)),
    ).put("operations"@, JsonModel::Array(operation_rows(reports))).put(
        "maintenance"@,
        JsonModel::object().put("passes"@, totals_of(counts)).put("recent"@, recent).put(
            "outcomes_mean"@,
            JsonModel::Text(OUTCOMES_MEAN@),
        ),
    )
}

/// Each part of the store block holds what it is named after.
pub proof fn law_a_store_block_names_what_it_shows(
    measured: Seq<String>,
    reports: Seq<KeyReport>,
    size: StoreSize,
    recent: JsonModel,
    counts: Seq<PassCount>,
    activity: i64,
    pool_saturated: bool,
)
    ensures
        ({
            let shown = store_block(
                measured,
                reports,
                size,
                recent,
                counts,
                activity,
                pool_saturated,
            );
            &&& shown.get("measured"@) == Some(JsonModel::Array(texts_json(measured)))
            &&& shown.get("unmeasured"@) == Some(JsonModel::Text(UNMEASURED@))
            &&& shown.get("derived_by"@) == Some(derivations())
            &&& shown.get("size"@) == Some(size_block(size))
            &&& shown.get("activity"@) == Some(
                JsonModel::object().put(
                    "inflight"@,
                    JsonModel::integer(if activity < 0 { 0 } else { activity as int }),
                ).put(
                    "inflight_raw"@,
                    JsonModel::integer(activity as int),
                ).put(
                    "pool_saturated"@,
                    JsonModel::Bool(pool_saturated),
                ).put("means"@, JsonModel::Text(ACTIVITY_MEANS@)),
            )
            &&& shown.get("operations"@) == Some(JsonModel::Array(operation_rows(reports)))
            &&& shown.get("maintenance"@) == Some(
                JsonModel::object().put("passes"@, totals_of(counts)).put("recent"@, recent).put(
                    "outcomes_mean"@,
                    JsonModel::Text(OUTCOMES_MEAN@),
                ),
            )
        }),
{
    reveal_strlit("measured");
    reveal_strlit("unmeasured");
    reveal_strlit("derived_by");
    reveal_strlit("size");
    reveal_strlit("activity");
    reveal_strlit("operations");
    reveal_strlit("maintenance");
    assert("measured"@[0] != "activity"@[0]);
    assert("unmeasured"@[0] != "derived_by"@[0]);
    assert("unmeasured"@[0] != "operations"@[0]);
    assert("derived_by"@[0] != "operations"@[0]);
    let m0 = JsonModel::object();
    let v1 = JsonModel::Array(texts_json(measured));
    lemma_put(m0, "measured"@, v1);
    let m1 = m0.put("measured"@, v1);
    let v2 = JsonModel::Text(UNMEASURED@);
    lemma_put(m1, "unmeasured"@, v2);
    let m2 = m1.put("unmeasured"@, v2);
    let v3 = derivations();
    lemma_put(m2, "derived_by"@, v3);
    let m3 = m2.put("derived_by"@, v3);
    let v4 = size_block(size);
    lemma_put(m3, "size"@, v4);
    let m4 = m3.put("size"@, v4);
    let v5 = JsonModel::object().put(
        "inflight"@,
        JsonModel::integer(if activity < 0 { 0 } else { activity as int }),
    ).put(
        "inflight_raw"@,
        JsonModel::integer(activity as int),
    ).put(
        "pool_saturated"@,
        JsonModel::Bool(pool_saturated),
    ).put("means"@, JsonModel::Text(ACTIVITY_MEANS@));
    lemma_put(m4, "activity"@, v5);
    let m5 = m4.put("activity"@, v5);
    let v6 = JsonModel::Array(operation_rows(reports));
    lemma_put(m5, "operations"@, v6);
    let m6 = m5.put("operations"@, v6);
    let v7 = JsonModel::object().put("passes"@, totals_of(counts)).put("recent"@, recent).put(
        "outcomes_mean"@,
        JsonModel::Text(OUTCOMES_MEAN@),
    );
    lemma_put(m6, "maintenance"@, v7);
}

/// The store's on-demand diagnostic report. Every derived figure names how it is
/// computed again, the census says what it leaves out, and the raw activity
/// counter is shown unclamped: a negative reading is an unbalanced guard.
pub fn store_report(
    measured: &[String],
    reports: &[KeyReport],
    size: &StoreSize,
    recent: &Json,
    counts: &[PassCount],
    activity: i64,
    pool_saturated: bool,
) -> (r: Json)
    ensures
        r@ == store_block(
            measured@,
            reports@,
            *size,
            recent@,
            counts@,
            activity,
            pool_saturated,
        ),
{
    let mut families: Vec<Json> = Vec::new();
    let mut i: usize = 0;
    while i < measured.len()
        invariant
            i <= measured@.len(),
            families@.len() == i,
            forall|k: int|
                0 <= k < i ==> (#[trigger] families@[k])@ == JsonModel::Text(measured@[k]@),
        decreases measured@.len() - i,
    {
        families.push(Json::text(measured[i].as_str()));
        i += 1;
    }
    assert(models(families@) =~= texts_json(measured@));
    let mut operations: Vec<Json> = Vec::new();
    let mut i: usize = 0;
    while i < reports.len()
        invariant
            i <= reports@.len(),
            operations@.len() == i,
            forall|k: int|
                0 <= k < i ==> (#[trigger] operations@[k])@ == operation_row(reports@[k]),
        decreases reports@.len() - i,
    {
        operations.push(operation_json(&reports[i]));
        i += 1;
    }
    assert(models(operations@) =~= operation_rows(reports@));
    let mut gate = Json::object();
    let inflight: i64 = if activity < 0 {
        0
    } else {
        activity
    };
    gate.set("inflight", Json::integer(inflight));
    gate.set("inflight_raw", Json::integer(activity));
    gate.set("pool_saturated", Json::Bool(pool_saturated));
    gate.set("means", Json::text(ACTIVITY_MEANS));
    let mut maintenance = Json::object();
    maintenance.set("passes", pass_totals(counts));
    maintenance.set("recent", recent.copy());
    maintenance.set("outcomes_mean", Json::text(OUTCOMES_MEAN));
    let mut out = Json::object();
    out.set("measured", Json::array(families));
    out.set("unmeasured", Json::text(UNMEASURED));
    out.set("derived_by", derivations_json());
    out.set("size", size_json(size));
    out.set("activity", gate);
    out.set("operations", Json::array(operations));
    out.set("maintenance", maintenance);
    out
}

/// Every table, every dataset, every app and every operation has its row, in the
/// order they came.
pub proof fn law_rows_stand_in_order(
    tables: Seq<LedgerStat>,
    cfg: StorageConfig,
    now: Instant,
    coverage: Seq<DatasetCoverage>,
    per_app: Seq<AppReclaim>,
    reports: Seq<KeyReport>,
    names: Seq<String>,
    i: int,
)
    ensures
        table_rows(tables, cfg, now).len() == tables.len(),
        0 <= i < tables.len() ==> table_rows(tables, cfg, now)[i] == table_row(tables[i], cfg, now),
        coverage_rows(coverage).len() == coverage.len(),
        0 <= i < coverage.len() ==> coverage_rows(coverage)[i] == coverage_row(coverage[i]),
        reclaim_rows(per_app).len() == per_app.len(),
        0 <= i < per_app.len() ==> reclaim_rows(per_app)[i] == reclaim_row(per_app[i]),
        app_bytes(per_app).len() == per_app.len(),
        0 <= i < per_app.len() ==> app_bytes(per_app)[i] == per_app[i].bytes,
        operation_rows(reports).len() == reports.len(),
        0 <= i < reports.len() ==> operation_rows(reports)[i] == operation_row(reports[i]),
        texts_json(names).len() == names.len(),
        0 <= i < names.len() ==> texts_json(names)[i] == JsonModel::Text(names[i]@),
{
}

/// One app more adds its bytes to the total.
pub proof fn law_every_app_adds_its_bytes(per_app: Seq<AppReclaim>, more: AppReclaim)
    ensures
        bytes_sum(app_bytes(Seq::empty())) == 0,
        bytes_sum(app_bytes(per_app.push(more))) == bytes_sum(app_bytes(per_app)) + more.bytes,
{
    let all = app_bytes(per_app.push(more));
    assert(all.drop_last() =~= app_bytes(per_app));
    assert(all.last() == more.bytes);
    assert(app_bytes(Seq::empty()) =~= Seq::empty());
}

} // verus!
