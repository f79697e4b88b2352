//! Information economics: spend and yield per app over a trailing window, and
//! the advisory planner. An unknown count stays unknown.

use vstd::prelude::*;

use crate::jobs::is_positive_finite;
use crate::mesh::{checked_sum, law_a_sum_fits_while_each_step_does, sum_of, sums_fit};
use crate::metrics::{law_padding_keeps_the_number, occurs, padded, tens};
use crate::number::{decimal, push_u64, value};
use crate::order::{before, lemma_before_trans, lemma_rank, rank_of, Rank};
use crate::text::{begins, owned, same};

verus! {

/// The engine behind a metered call.
#[derive(Debug, PartialEq)]
pub enum Engine {
    /// The tier that real money flows through.
    Claude,
    /// Any other engine, by its name.
    Other(String),
}

/// A count, or zero when it is unknown.
pub open spec fn or_zero(n: Option<i64>) -> int {
    match n {
        Some(i) => i as int,
        None => 0,
    }
}

/// The sum of two counts: unknown only when both are.
pub open spec fn opt_sum(a: Option<i64>, b: Option<i64>) -> Option<int> {
    if a is None && b is None {
        None
    } else {
        Some(or_zero(a) + or_zero(b))
    }
}

/// `None`-preserving addition: unknown plus unknown stays unknown; beside a known
/// count the unknown side contributes nothing.
pub fn opt_add(a: Option<i64>, b: Option<i64>) -> (r: Option<i64>)
    requires
        i64::MIN <= or_zero(a) + or_zero(b) <= i64::MAX,
    ensures
        match r {
            Some(n) => opt_sum(a, b) == Some(n as int),
            None => opt_sum(a, b) is None,
        },
{
    match (a, b) {
        (None, None) => None,
        (Some(x), None) => Some(x),
        (None, Some(y)) => Some(y),
        (Some(x), Some(y)) => Some(x + y),
    }
}

/// Addition of counts does not depend on the order, and unknown is its neutral
/// element: nothing is ever zeroed by what is not known.
pub proof fn law_opt_add_keeps_unknown(a: Option<i64>, b: Option<i64>)
    ensures
        opt_sum(a, b) == opt_sum(b, a),
        opt_sum(a, None) == match a {
            Some(n) => Some(n as int),
            None => None,
        },
        opt_sum(a, b) is None <==> a is None && b is None,
{
}

/// Which way an app's cadence should move.
#[derive(Debug, Clone, Copy, PartialEq, Eq, Structural)]
pub enum Cadence {
    Increase,
    Keep,
    Decrease,
}

impl Cadence {
    /// The direction as the report says it.
    pub fn as_str(self) -> (r: &'static str)
        ensures
            r@ == match self {
                Cadence::Increase => "increase"@,
                Cadence::Keep => "keep"@,
                Cadence::Decrease => "decrease"@,
            },
    {
        match self {
            Cadence::Increase => "increase",
            Cadence::Keep => "keep",
            Cadence::Decrease => "decrease",
        }
    }
}

/// The planner's advice for one app.
#[derive(Debug, PartialEq)]
pub struct Advice {
    /// The recommended budget of a job, as the bits of a double; none when there is no
    /// cost to derive one from.
    pub budget_usd: Option<u64>,
    pub cadence: Cadence,
    pub reason: String,
}

/// How the recent rate of fresh records stands to the baseline.
#[derive(Debug, Clone, Copy, PartialEq, Eq, Structural)]
pub enum Pace {
    Hot,
    Cooled,
    Steady,
}

/// The pace: seven days against thirty, hot at one and a half times the baseline
/// rate and cooled at half of it. The daily rates are `f7 / 7` and `f30 / 30`.
pub open spec fn pace(f7: int, f30: int) -> Pace {
    if f7 > 0 && 2 * 30 * f7 >= 3 * 7 * f30 {
        Pace::Hot
    } else if 2 * 30 * f7 <= 7 * f30 {
        Pace::Cooled
    } else {
        Pace::Steady
    }
}

/// Compares the recent daily rate of fresh records with the baseline.
pub fn pace_of(f7: i64, f30: i64) -> (r: Pace)
    ensures
        r == pace(f7 as int, f30 as int),
{
    let recent: i128 = 60 * (f7 as i128);
    let hot: i128 = 21 * (f30 as i128);
    let cooled: i128 = 7 * (f30 as i128);
    if f7 > 0 && recent >= hot {
        Pace::Hot
    } else if recent <= cooled {
        Pace::Cooled
    } else {
        Pace::Steady
    }
}

/// A source is hot where its daily rate over the last week is at least one and a
/// half times its daily rate over the month and anything came at all, cooled where
/// it is at most half of that, and steady between.
pub proof fn law_pace_compares_daily_rates(f7: int, f30: int)
    ensures
        pace(f7, f30) == Pace::Hot <==> f7 > 0 && 20 * f7 >= 7 * f30,
        pace(f7, f30) == Pace::Cooled <==> !(f7 > 0 && 20 * f7 >= 7 * f30) && 60 * f7 <= 7 * f30,
        pace(f7, f30) == Pace::Steady <==> 7 * f30 < 60 * f7 && 20 * f7 < 7 * f30 || (f7 <= 0 && 60
            * f7 > 7 * f30),
{
    assert(2 * 30 * f7 == 60 * f7 && 3 * 7 * f30 == 21 * f30) by (nonlinear_arith);
}

/// A daily rate in hundredths, rounded to the nearest.
pub open spec fn hundredths(count: nat, days: nat) -> nat {
    ((200 * count + days) / (2 * days)) as nat
}

/// A shown rate is the hundredth nearest to the true one, halves going up.
pub proof fn law_a_rate_is_rounded_to_the_nearest_hundredth(count: nat, days: nat)
    requires
        days > 0,
    ensures
        200 * count - days < 2 * days * hundredths(count, days) <= 200 * count + days,
{
    let n = (200 * count + days) as int;
    let d = (2 * days) as int;
    assert(n == d * (n / d) + n % d && 0 <= n % d < d) by {
        vstd::arithmetic::div_mod::lemma_fundamental_div_mod(n, d);
        vstd::arithmetic::div_mod::lemma_mod_bound(n, d);
    }
}

/// A daily rate with two decimals.
pub open spec fn rate_text(count: int, days: nat) -> Seq<char> {
    let h = hundredths(
        (if count < 0 {
            -count
        } else {
            count
        }) as nat,
        days,
    );
    (if count < 0 {
        seq!['-']
    } else {
        Seq::empty()
    }) + decimal((h / 100) as int) + seq!['.'] + padded(h % 100, 2)
}

/// Formats `count` records over `days` days as a daily rate with two decimals.
pub fn show_rate(count: i64, days: u8) -> (r: String)
    requires
        days > 0,
    ensures
        r@ == rate_text(count as int, days as nat),
{
    let magnitude: u128 = if count < 0 {
        (-(count as i128)) as u128
    } else {
        count as u128
    };
    let h: u128 = (200 * magnitude + days as u128) / (2 * (days as u128));
    assert(2 * h <= 200 * magnitude + days) by (nonlinear_arith)
        requires
            h == (200 * magnitude + days) / (2 * days as int),
            days > 0,
            magnitude >= 0,
    {
        assert(h * (2 * days) <= 200 * magnitude + days);
        assert(2 * h <= h * (2 * days));
    }
    let whole: u64 = (h / 100) as u64;
    let part: u8 = (h % 100) as u8;
    let mut out = String::new();
    if count < 0 {
        out.push('-');
    }
    push_u64(&mut out, whole);
    out.push('.');
    out.push((48 + part / 10) as char);
    out.push((48 + part % 10) as char);
    proof {
        reveal_with_fuel(padded, 3);
    }
    assert(out@ =~= rate_text(count as int, days as nat));
    out
}

/// The reason a hot app gives.
pub open spec fn pace_reason(f7: int, f30: int) -> Seq<char> {
    let head = "recent fresh-record rate "@ + rate_text(f7, 7);
    let base = rate_text(f30, 30);
    match pace(f7, f30) {
        Pace::Hot => head + "/day is ≥1.5× the 30d baseline "@ + base + "/day — source is hot"@,
        Pace::Cooled => head + "/day is ≤0.5× the 30d baseline "@ + base
            + "/day — source has cooled"@,
        Pace::Steady => head + "/day tracks the 30d baseline "@ + base + "/day"@,
    }
}

/// What an app spent, and the shares of its cost per job that a budget can be. Each is
/// a number of dollars as the bits of a double; the shares are rounded to four
/// decimals.
#[derive(Debug, Clone, Copy, PartialEq, Eq, Structural)]
pub struct Spend {
    pub cost_usd: u64,
    /// Half of what a job cost.
    pub half_usd: u64,
    /// What a job cost and a fifth more.
    pub headroom_usd: u64,
}

impl Spend {
    /// Whether money was spent: the total is above zero, if not a finite amount.
    pub open spec fn is_positive(self) -> bool {
        0 < self.cost_usd <= 0x7FF0_0000_0000_0000
    }

    /// Whether money was spent.
    pub fn positive(&self) -> (r: bool)
        ensures
            r == self.is_positive(),
    {
        0 < self.cost_usd && self.cost_usd <= 0x7FF0_0000_0000_0000
    }
}

/// A share of the observed cost per job as a budget. Without a job that reported yield,
/// without a finite cost above zero, or where the share is no such amount, there is
/// none: a budget of zero is never recommended.
pub open spec fn budget_by(jobs: i64, spend: Spend, share: u64) -> Option<u64> {
    if jobs > 0 && is_positive_finite(spend.cost_usd) && is_positive_finite(share) {
        Some(share)
    } else {
        None
    }
}

fn budget_from(jobs: i64, spend: Spend, share: u64) -> (r: Option<u64>)
    ensures
        r == budget_by(jobs, spend, share),
{
    if jobs > 0 && 0 < spend.cost_usd && spend.cost_usd < 0x7FF0_0000_0000_0000 && 0 < share
        && share < 0x7FF0_0000_0000_0000 {
        Some(share)
    } else {
        None
    }
}

/// The advice for an app: how many jobs reported yield, what it spent, and its
/// fresh records over seven and over thirty days where they are known.
pub open spec fn advice_of(jobs: i64, spend: Spend, f7: Option<i64>, f30: Option<i64>) -> (
    Option<u64>,
    Cadence,
    Seq<char>,
) {
    match f30 {
        None => (
            None,
            Cadence::Keep,
            if spend.is_positive() {
                "spend recorded but results report no yield counts — cannot price records; keep until instrumented"@
            } else {
                "no activity in the last 30d"@
            },
        ),
        Some(n) => if n == 0 {
            if spend.is_positive() {
                (
                    budget_by(jobs, spend, spend.half_usd),
                    Cadence::Decrease,
                    "30d spend produced zero fresh records — halve the per-job budget and slow the cadence (never to zero: a starved source hides its yield)"@,
                )
            } else {
                (
                    None,
                    Cadence::Decrease,
                    "runs complete but produce no fresh records — cadence likely faster than the source changes"@,
                )
            }
        } else {
            match f7 {
                None => (
                    budget_by(jobs, spend, spend.headroom_usd),
                    Cadence::Keep,
                    "yielding over 30d but no 7d yield telemetry to compare against"@,
                ),
                Some(m) => (
                    budget_by(jobs, spend, spend.headroom_usd),
                    match pace(m as int, n as int) {
                        Pace::Hot => Cadence::Increase,
                        Pace::Cooled => Cadence::Decrease,
                        Pace::Steady => Cadence::Keep,
                    },
                    pace_reason(m as int, n as int),
                ),
            }
        },
    }
}

/// Deterministic advice over the two windows: no telemetry means no
/// recommendation, spend without fresh records halves the budget and slows down,
/// and a yielding app is paced by its recent rate against its baseline.
pub fn advise(
    jobs_with_yield: i64,
    spend: Spend,
    fresh_7d: Option<i64>,
    fresh_30d: Option<i64>,
) -> (r: Advice)
    ensures
        (r.budget_usd, r.cadence, r.reason@) == advice_of(
            jobs_with_yield,
            spend,
            fresh_7d,
            fresh_30d,
        ),
        r.budget_usd matches Some(b) ==> is_positive_finite(b),
{
    let f30: i64 = match fresh_30d {
        None => {
            let reason = if spend.positive() {
                owned(
                    "spend recorded but results report no yield counts — cannot price records; keep until instrumented",
                )
            } else {
                owned("no activity in the last 30d")
            };
            return Advice { budget_usd: None, cadence: Cadence::Keep, reason };
        },
        Some(n) => n,
    };
    if f30 == 0 {
        return if spend.positive() {
            Advice {
                budget_usd: budget_from(jobs_with_yield, spend, spend.half_usd),
                cadence: Cadence::Decrease,
                reason: owned(
                    "30d spend produced zero fresh records — halve the per-job budget and slow the cadence (never to zero: a starved source hides its yield)",
                ),
            }
        } else {
            Advice {
                budget_usd: None,
                cadence: Cadence::Decrease,
                reason: owned(
                    "runs complete but produce no fresh records — cadence likely faster than the source changes",
                ),
            }
        };
    }
    let budget_usd = budget_from(jobs_with_yield, spend, spend.headroom_usd);
    match fresh_7d {
        None => Advice {
            budget_usd,
            cadence: Cadence::Keep,
            reason: owned("yielding over 30d but no 7d yield telemetry to compare against"),
        },
        Some(f7) => {
            let mut reason = owned("recent fresh-record rate ");
            reason.append(show_rate(f7, 7).as_str());
            let base = show_rate(f30, 30);
            let cadence = match pace_of(f7, f30) {
                Pace::Hot => {
                    reason.append("/day is ≥1.5× the 30d baseline ");
                    reason.append(base.as_str());
                    reason.append("/day — source is hot");
                    Cadence::Increase
                },
                Pace::Cooled => {
                    reason.append("/day is ≤0.5× the 30d baseline ");
                    reason.append(base.as_str());
                    reason.append("/day — source has cooled");
                    Cadence::Decrease
                },
                Pace::Steady => {
                    reason.append("/day tracks the 30d baseline ");
                    reason.append(base.as_str());
                    reason.append("/day");
                    Cadence::Keep
                },
            };
            Advice { budget_usd, cadence, reason }
        },
    }
}

/// Without yield telemetry the planner recommends nothing and changes nothing.
pub proof fn law_no_telemetry_no_recommendation(jobs: i64, spend: Spend, f7: Option<i64>)
    ensures
        advice_of(jobs, spend, f7, None).0 is None,
        advice_of(jobs, spend, f7, None).1 == Cadence::Keep,
{
}

/// A budget is recommended only from an observed cost per job, and is then a finite
/// amount above zero: never without jobs that reported yield, and never from a total
/// that is not such an amount itself.
pub proof fn law_a_budget_has_a_cost_behind_it(
    jobs: i64,
    spend: Spend,
    f7: Option<i64>,
    f30: Option<i64>,
)
    requires
        advice_of(jobs, spend, f7, f30).0 is Some,
    ensures
        jobs > 0 && is_positive_finite(spend.cost_usd) && f30 is Some,
        is_positive_finite(advice_of(jobs, spend, f7, f30).0->0),
{
}

/// A cadence is raised only for an app that yields: never for one whose
/// baseline is unknown or zero, and never without fresh records in the week.
pub proof fn law_only_yield_raises_the_cadence(
    jobs: i64,
    spend: Spend,
    f7: Option<i64>,
    f30: Option<i64>,
)
    requires
        advice_of(jobs, spend, f7, f30).1 == Cadence::Increase,
    ensures
        f30 is Some && f30->0 != 0,
        f7 is Some && f7->0 > 0,
{
}

/// One ledger row: what an app spent on an engine.
#[derive(Debug, PartialEq)]
pub struct CostRow {
    pub app: String,
    pub engine: Engine,
    pub calls: i64,
}

/// One yield row: what an app's dataset gained.
#[derive(Debug, PartialEq)]
pub struct YieldRow {
    pub app: String,
    pub dataset: String,
    pub jobs: i64,
    pub new: Option<i64>,
    pub changed: Option<i64>,
    pub unchanged: Option<i64>,
}

/// Which count of a yield row is meant.
#[derive(Debug, Clone, Copy, PartialEq, Eq, Structural)]
pub enum Count {
    New,
    Changed,
    Unchanged,
}

/// A count of a row.
pub open spec fn count_in(y: YieldRow, which: Count) -> Option<i64> {
    match which {
        Count::New => y.new,
        Count::Changed => y.changed,
        Count::Unchanged => y.unchanged,
    }
}

/// One app's aggregate over a window. The money itself is added up by the rows:
/// `cost_rows` and `claude_rows` are the ledger rows that count toward it.
#[derive(Debug, PartialEq)]
pub struct AppWindow {
    pub app: String,
    pub jobs_with_yield: i64,
    pub calls: i64,
    pub claude_calls: i64,
    pub new: Option<i64>,
    pub changed: Option<i64>,
    pub unchanged: Option<i64>,
    pub cost_rows: Vec<usize>,
    pub claude_rows: Vec<usize>,
    pub yield_rows: Vec<usize>,
}

/// The ledger rows of an app, by index; only those of the paid tier when asked.
pub open spec fn cost_rows_of(costs: Seq<CostRow>, app: Seq<char>, paid: bool) -> Seq<usize>
    decreases costs.len(),
{
    if costs.len() == 0 {
        Seq::empty()
    } else {
        let rest = cost_rows_of(costs.drop_last(), app, paid);
        let c = costs.last();
        if c.app@ == app && (paid ==> c.engine is Claude) {
            rest.push((costs.len() - 1) as usize)
        } else {
            rest
        }
    }
}

/// The calls of an app's ledger rows.
pub open spec fn calls_of(costs: Seq<CostRow>, app: Seq<char>, paid: bool) -> Seq<i64>
    decreases costs.len(),
{
    if costs.len() == 0 {
        Seq::empty()
    } else {
        let rest = calls_of(costs.drop_last(), app, paid);
        let c = costs.last();
        if c.app@ == app && (paid ==> c.engine is Claude) {
            rest.push(c.calls)
        } else {
            rest
        }
    }
}

/// The yield rows of an app, by index.
pub open spec fn yield_rows_of(yields: Seq<YieldRow>, app: Seq<char>) -> Seq<usize>
    decreases yields.len(),
{
    if yields.len() == 0 {
        Seq::empty()
    } else {
        let rest = yield_rows_of(yields.drop_last(), app);
        if yields.last().app@ == app {
            rest.push((yields.len() - 1) as usize)
        } else {
            rest
        }
    }
}

/// The known counts of an app's yield rows.
pub open spec fn known_of(yields: Seq<YieldRow>, app: Seq<char>, which: Count) -> Seq<i64>
    decreases yields.len(),
{
    if yields.len() == 0 {
        Seq::empty()
    } else {
        let rest = known_of(yields.drop_last(), app, which);
        match count_in(yields.last(), which) {
            Some(n) => if yields.last().app@ == app {
                rest.push(n)
            } else {
                rest
            },
            None => rest,
        }
    }
}

/// The most jobs any of an app's yield rows reports, at least zero.
pub open spec fn jobs_of(yields: Seq<YieldRow>, app: Seq<char>) -> i64
    decreases yields.len(),
{
    if yields.len() == 0 {
        0
    } else {
        let rest = jobs_of(yields.drop_last(), app);
        if yields.last().app@ == app && yields.last().jobs > rest {
            yields.last().jobs
        } else {
            rest
        }
    }
}

/// A total of known counts: unknown when no row knows one.
pub open spec fn total_of(known: Seq<i64>) -> Option<int> {
    if known.len() == 0 {
        None
    } else {
        Some(sum_of(known))
    }
}

/// An optional count as an optional integer.
pub open spec fn wide(n: Option<i64>) -> Option<int> {
    match n {
        Some(i) => Some(i as int),
        None => None,
    }
}

/// Whether `w` is the aggregate of its app.
pub open spec fn window_is(w: AppWindow, costs: Seq<CostRow>, yields: Seq<YieldRow>) -> bool {
    let app = w.app@;
    &&& w.jobs_with_yield == jobs_of(yields, app)
    &&& w.calls == sum_of(calls_of(costs, app, false))
    &&& w.claude_calls == sum_of(calls_of(costs, app, true))
    &&& wide(w.new) == total_of(known_of(yields, app, Count::New))
    &&& wide(w.changed) == total_of(known_of(yields, app, Count::Changed))
    &&& wide(w.unchanged) == total_of(known_of(yields, app, Count::Unchanged))
    &&& w.cost_rows@ == cost_rows_of(costs, app, false)
    &&& w.claude_rows@ == cost_rows_of(costs, app, true)
    &&& w.yield_rows@ == yield_rows_of(yields, app)
}

/// Whether an app's counts add up within 64 bits.
pub open spec fn window_fits(costs: Seq<CostRow>, yields: Seq<YieldRow>, app: Seq<char>) -> bool {
    &&& sums_fit(calls_of(costs, app, false))
    &&& sums_fit(calls_of(costs, app, true))
    &&& sums_fit(known_of(yields, app, Count::New))
    &&& sums_fit(known_of(yields, app, Count::Changed))
    &&& sums_fit(known_of(yields, app, Count::Unchanged))
}

fn is_claude(engine: &Engine) -> (r: bool)
    ensures
        r == (*engine is Claude),
{
    match engine {
        Engine::Claude => true,
        Engine::Other(_) => false,
    }
}

fn read_costs(costs: &[CostRow], app: &str, paid: bool) -> (r: (Vec<usize>, Vec<i64>))
    ensures
        r.0@ == cost_rows_of(costs@, app@, paid),
        r.1@ == calls_of(costs@, app@, paid),
{
    let mut rows: Vec<usize> = Vec::new();
    let mut calls: Vec<i64> = Vec::new();
    let mut i: usize = 0;
    while i < costs.len()
        invariant
            i <= costs@.len(),
            rows@ =~= cost_rows_of(costs@.take(i as int), app@, paid),
            calls@ =~= calls_of(costs@.take(i as int), app@, paid),
        decreases costs@.len() - i,
    {
        assert(costs@.take(i + 1).drop_last() =~= costs@.take(i as int));
        let c = &costs[i];
        if same(c.app.as_str(), app) && (!paid || is_claude(&c.engine)) {
            rows.push(i);
            calls.push(c.calls);
        }
        i += 1;
    }
    assert(costs@.take(costs@.len() as int) =~= costs@);
    (rows, calls)
}

fn read_known(yields: &[YieldRow], app: &str, which: Count) -> (r: Vec<i64>)
    ensures
        r@ == known_of(yields@, app@, which),
{
    let mut out: Vec<i64> = Vec::new();
    let mut i: usize = 0;
    while i < yields.len()
        invariant
            i <= yields@.len(),
            out@ =~= known_of(yields@.take(i as int), app@, which),
        decreases yields@.len() - i,
    {
        assert(yields@.take(i + 1).drop_last() =~= yields@.take(i as int));
        let y = &yields[i];
        let n = match which {
            Count::New => y.new,
            Count::Changed => y.changed,
            Count::Unchanged => y.unchanged,
        };
        if let Some(n) = n {
            if same(y.app.as_str(), app) {
                out.push(n);
            }
        }
        i += 1;
    }
    assert(yields@.take(yields@.len() as int) =~= yields@);
    out
}

fn read_yields(yields: &[YieldRow], app: &str) -> (r: (Vec<usize>, i64))
    ensures
        r.0@ == yield_rows_of(yields@, app@),
        r.1 == jobs_of(yields@, app@),
{
    let mut rows: Vec<usize> = Vec::new();
    let mut jobs: i64 = 0;
    let mut i: usize = 0;
    while i < yields.len()
        invariant
            i <= yields@.len(),
            rows@ =~= yield_rows_of(yields@.take(i as int), app@),
            jobs == jobs_of(yields@.take(i as int), app@),
        decreases yields@.len() - i,
    {
        assert(yields@.take(i + 1).drop_last() =~= yields@.take(i as int));
        if same(yields[i].app.as_str(), app) {
            rows.push(i);
            if yields[i].jobs > jobs {
                jobs = yields[i].jobs;
            }
        }
        i += 1;
    }
    assert(yields@.take(yields@.len() as int) =~= yields@);
    (rows, jobs)
}

fn total_known(known: &[i64]) -> (r: Option<Option<i64>>)
    ensures
        r is Some <==> sums_fit(known@),
        r matches Some(n) ==> wide(n) == total_of(known@),
{
    match checked_sum(known) {
        None => None,
        Some(n) => if known.len() == 0 {
            Some(None)
        } else {
            Some(Some(n))
        },
    }
}

/// Whether `rows` lists, once each and in rising order, the positions below
/// `len` at which `fits` holds.
pub open spec fn lists_where(rows: Seq<usize>, len: nat, fits: spec_fn(int) -> bool) -> bool {
    &&& forall|i: int, j: int| 0 <= i < j < rows.len() ==> #[trigger] rows[i] < #[trigger] rows[j]
    &&& forall|k: int| 0 <= k < rows.len() ==> (#[trigger] rows[k]) < len && fits(rows[k] as int)
    &&& forall|i: usize| i < len && #[trigger] fits(i as int) ==> rows.contains(i)
}

/// The sum of a quantity over the listed positions.
pub open spec fn sum_at(rows: Seq<usize>, of: spec_fn(int) -> int) -> int
    decreases rows.len(),
{
    if rows.len() == 0 {
        0
    } else {
        sum_at(rows.drop_last(), of) + of(rows.last() as int)
    }
}

/// One more position is listed exactly where it fits.
pub proof fn lemma_lists_more(rows: Seq<usize>, n: nat, fits: spec_fn(int) -> bool)
    requires
        lists_where(rows, n, fits),
        n < usize::MAX,
    ensures
        fits(n as int) ==> lists_where(rows.push(n as usize), n + 1, fits),
        !fits(n as int) ==> lists_where(rows, n + 1, fits),
{
    let more = rows.push(n as usize);
    if fits(n as int) {
        assert forall|i: usize| i < n + 1 && #[trigger] fits(i as int) implies more.contains(i) by {
            if i == n {
                assert(more[rows.len() as int] == i);
            } else {
                let k = choose|k: int| 0 <= k < rows.len() && rows[k] == i;
                assert(rows.contains(i));
                assert(more[k] == i);
            }
        }
    }
}

spec fn in_ledger(costs: Seq<CostRow>, app: Seq<char>, paid: bool) -> spec_fn(int) -> bool {
    |i: int| costs[i].app@ == app && (paid ==> costs[i].engine is Claude)
}

proof fn lemma_cost_rows(costs: Seq<CostRow>, app: Seq<char>, paid: bool, n: int)
    requires
        0 <= n <= costs.len() <= usize::MAX,
    ensures
        lists_where(
            cost_rows_of(costs.take(n), app, paid),
            n as nat,
            in_ledger(costs, app, paid),
        ),
        sum_of(calls_of(costs.take(n), app, paid)) == sum_at(
            cost_rows_of(costs.take(n), app, paid),
            |i: int| costs[i].calls as int,
        ),
    decreases n,
{
    if n > 0 {
        lemma_cost_rows(costs, app, paid, n - 1);
        let fits = in_ledger(costs, app, paid);
        let rest = cost_rows_of(costs.take(n - 1), app, paid);
        assert(costs.take(n).drop_last() =~= costs.take(n - 1));
        lemma_lists_more(rest, (n - 1) as nat, fits);
        let calls = calls_of(costs.take(n - 1), app, paid);
        assert(rest.push((n - 1) as usize).drop_last() =~= rest);
        assert(calls.push(costs[n - 1].calls).drop_last() =~= calls);
    }
}

proof fn lemma_yield_rows(yields: Seq<YieldRow>, app: Seq<char>, n: int)
    requires
        0 <= n <= yields.len() <= usize::MAX,
    ensures
        lists_where(
            yield_rows_of(yields.take(n), app),
            n as nat,
            |i: int| yields[i].app@ == app,
        ),
        jobs_of(yields.take(n), app) >= 0,
        forall|i: int|
            0 <= i < n && (#[trigger] yields[i]).app@ == app ==> yields[i].jobs <= jobs_of(
                yields.take(n),
                app,
            ),
        jobs_of(yields.take(n), app) == 0 || exists|i: int|
            0 <= i < n && (#[trigger] yields[i]).app@ == app && yields[i].jobs == jobs_of(
                yields.take(n),
                app,
            ),
    decreases n,
{
    if n > 0 {
        lemma_yield_rows(yields, app, n - 1);
        let fits = |i: int| yields[i].app@ == app;
        let rest = yield_rows_of(yields.take(n - 1), app);
        assert(yields.take(n).drop_last() =~= yields.take(n - 1));
        assert(yields.take(n).last() == yields[n - 1]);
        lemma_lists_more(rest, (n - 1) as nat, fits);
    }
}

/// One count of a yield row, zero where it is unknown.
pub open spec fn known_count(y: YieldRow, which: Count) -> int {
    match (which, y) {
        (Count::New, YieldRow { new: Some(n), .. }) => n as int,
        (Count::Changed, YieldRow { changed: Some(n), .. }) => n as int,
        (Count::Unchanged, YieldRow { unchanged: Some(n), .. }) => n as int,
        _ => 0,
    }
}

proof fn lemma_known(yields: Seq<YieldRow>, app: Seq<char>, which: Count, n: int)
    requires
        0 <= n <= yields.len() <= usize::MAX,
    ensures
        sum_of(known_of(yields.take(n), app, which)) == sum_at(
            yield_rows_of(yields.take(n), app),
            |i: int| known_count(yields[i], which),
        ),
        known_of(yields.take(n), app, which).len() == 0 <==> forall|i: int|
            0 <= i < n && (#[trigger] yields[i]).app@ == app ==> count_in(yields[i], which) is None,
    decreases n,
{
    if n > 0 {
        lemma_known(yields, app, which, n - 1);
        assert(yields.take(n).drop_last() =~= yields.take(n - 1));
        let y = yields[n - 1];
        assert(yields.take(n).last() == y);
        let rows = yield_rows_of(yields.take(n - 1), app);
        let known = known_of(yields.take(n - 1), app, which);
        assert(rows.push((n - 1) as usize).drop_last() =~= rows);
        if let Some(k) = count_in(y, which) {
            assert(known.push(k).drop_last() =~= known);
        }
    }
}

/// An app's window holds every ledger row of the app, whatever the engine, and
/// among those every row of the paid tier; its calls are those of its rows and
/// its paid calls those of its paid rows. It holds every yield row of the app;
/// its jobs are the most that any of them reports.
pub proof fn law_a_window_holds_every_row_of_its_app(
    w: AppWindow,
    costs: Seq<CostRow>,
    yields: Seq<YieldRow>,
)
    requires
        window_is(w, costs, yields),
        costs.len() <= usize::MAX,
        yields.len() <= usize::MAX,
    ensures
        forall|i: usize|
            #![trigger w.cost_rows@.contains(i)]
            w.cost_rows@.contains(i) <==> i < costs.len() && costs[i as int].app@ == w.app@,
        forall|i: usize|
            #![trigger w.claude_rows@.contains(i)]
            w.claude_rows@.contains(i) <==> i < costs.len() && costs[i as int].app@ == w.app@
                && costs[i as int].engine is Claude,
        forall|i: usize|
            #![trigger w.claude_rows@.contains(i)]
            w.claude_rows@.contains(i) ==> w.cost_rows@.contains(i),
        forall|i: usize|
            #![trigger w.yield_rows@.contains(i)]
            w.yield_rows@.contains(i) <==> i < yields.len() && yields[i as int].app@ == w.app@,
        forall|i: int, j: int|
            0 <= i < j < w.cost_rows@.len() ==> #[trigger] w.cost_rows@[i]
                < #[trigger] w.cost_rows@[j],
        forall|i: int, j: int|
            0 <= i < j < w.claude_rows@.len() ==> #[trigger] w.claude_rows@[i]
                < #[trigger] w.claude_rows@[j],
        forall|i: int, j: int|
            0 <= i < j < w.yield_rows@.len() ==> #[trigger] w.yield_rows@[i]
                < #[trigger] w.yield_rows@[j],
        w.calls == sum_at(w.cost_rows@, |i: int| costs[i].calls as int),
        w.claude_calls == sum_at(w.claude_rows@, |i: int| costs[i].calls as int),
        w.jobs_with_yield >= 0,
        forall|i: int|
            0 <= i < yields.len() && (#[trigger] yields[i]).app@ == w.app@ ==> yields[i].jobs
                <= w.jobs_with_yield,
        w.jobs_with_yield > 0 ==> exists|i: int|
            0 <= i < yields.len() && (#[trigger] yields[i]).app@ == w.app@ && yields[i].jobs
                == w.jobs_with_yield,
{
    let app = w.app@;
    assert(costs.take(costs.len() as int) =~= costs);
    assert(yields.take(yields.len() as int) =~= yields);
    lemma_cost_rows(costs, app, false, costs.len() as int);
    lemma_cost_rows(costs, app, true, costs.len() as int);
    lemma_yield_rows(yields, app, yields.len() as int);
    let all = in_ledger(costs, app, false);
    let paid = in_ledger(costs, app, true);
    let fed = |i: int| yields[i].app@ == app;
    assert forall|i: usize| #![trigger w.cost_rows@.contains(i)] i < costs.len() && all(i as int)
        implies w.cost_rows@.contains(i) by {}
    assert forall|i: usize| #![trigger w.claude_rows@.contains(i)] i < costs.len() && paid(
        i as int,
    ) implies w.claude_rows@.contains(i) by {}
    assert forall|i: usize| #![trigger w.yield_rows@.contains(i)] i < yields.len() && fed(i as int)
        implies w.yield_rows@.contains(i) by {}
}

/// A window's count of one kind is the sum of what the app's yield rows know of
/// that kind, and unknown exactly where none of them knows any.
pub proof fn law_a_windows_counts_are_those_of_its_rows(
    w: AppWindow,
    costs: Seq<CostRow>,
    yields: Seq<YieldRow>,
)
    requires
        window_is(w, costs, yields),
        yields.len() <= usize::MAX,
    ensures
        w.new is None <==> forall|i: int|
            0 <= i < yields.len() && (#[trigger] yields[i]).app@ == w.app@ ==> yields[i].new is None,
        w.changed is None <==> forall|i: int|
            0 <= i < yields.len() && (#[trigger] yields[i]).app@ == w.app@
                ==> yields[i].changed is None,
        w.unchanged is None <==> forall|i: int|
            0 <= i < yields.len() && (#[trigger] yields[i]).app@ == w.app@
                ==> yields[i].unchanged is None,
        w.new matches Some(n) ==> n == sum_at(
            w.yield_rows@,
            |i: int| known_count(yields[i], Count::New),
        ),
        w.changed matches Some(n) ==> n == sum_at(
            w.yield_rows@,
            |i: int| known_count(yields[i], Count::Changed),
        ),
        w.unchanged matches Some(n) ==> n == sum_at(
            w.yield_rows@,
            |i: int| known_count(yields[i], Count::Unchanged),
        ),
{
    assert(yields.take(yields.len() as int) =~= yields);
    lemma_known(yields, w.app@, Count::New, yields.len() as int);
    lemma_known(yields, w.app@, Count::Changed, yields.len() as int);
    lemma_known(yields, w.app@, Count::Unchanged, yields.len() as int);
}

/// Aggregates one app; `None` when a count outgrows 64 bits.
pub fn app_window(costs: &[CostRow], yields: &[YieldRow], app: &str) -> (r: Option<AppWindow>)
    ensures
        r is Some <==> window_fits(costs@, yields@, app@),
        r matches Some(w) ==> w.app@ == app@ && window_is(w, costs@, yields@),
{
    let (cost_rows, calls) = read_costs(costs, app, false);
    let (claude_rows, claude) = read_costs(costs, app, true);
    let (yield_rows, jobs_with_yield) = read_yields(yields, app);
    let new = total_known(&read_known(yields, app, Count::New));
    let changed = total_known(&read_known(yields, app, Count::Changed));
    let unchanged = total_known(&read_known(yields, app, Count::Unchanged));
    match (checked_sum(&calls), checked_sum(&claude), new, changed, unchanged) {
        (Some(calls), Some(claude_calls), Some(new), Some(changed), Some(unchanged)) => Some(
            AppWindow {
                app: owned(app),
                jobs_with_yield,
                calls,
                claude_calls,
                new,
                changed,
                unchanged,
                cost_rows,
                claude_rows,
                yield_rows,
            },
        ),
        _ => None,
    }
}

/// Whether the names stand in strict order.
pub open spec fn names_sorted(names: Seq<String>) -> bool {
    forall|i: int, j: int|
        0 <= i < j < names.len() ==> before((#[trigger] names[i])@, (#[trigger] names[j])@)
}

/// Whether a name is among `names`.
pub open spec fn names_have(names: Seq<String>, name: Seq<char>) -> bool {
    exists|i: int| 0 <= i < names.len() && (#[trigger] names[i])@ == name
}

fn add_name(names: &mut Vec<String>, name: &str)
    requires
        names_sorted(old(names)@),
    ensures
        names_sorted(final(names)@),
        forall|n: Seq<char>| #[trigger]
            names_have(final(names)@, n) <==> names_have(old(names)@, n) || n == name@,
{
    let ghost had = names@;
    let mut i: usize = 0;
    while i < names.len()
        invariant
            names@ == had,
            had == old(names)@,
            names_sorted(had),
            i <= names@.len(),
            forall|k: int| 0 <= k < i ==> before((#[trigger] had[k])@, name@),
        decreases names@.len() - i,
    {
        proof {
            lemma_rank(had[i as int]@, name@);
        }
        match rank_of(names[i].as_str(), name) {
            Rank::Before => {
                i += 1;
            },
            Rank::Same => {
                assert(had[i as int]@ == name@);
                return;
            },
            Rank::After => {
                names.insert(i, owned(name));
                proof {
                    lemma_inserted(had, names@, name@, i as int);
                }
                return;
            },
        }
    }
    names.insert(i, owned(name));
    proof {
        lemma_inserted(had, names@, name@, i as int);
    }
}

proof fn lemma_inserted(had: Seq<String>, now: Seq<String>, name: Seq<char>, p: int)
    requires
        names_sorted(had),
        0 <= p <= had.len(),
        now.len() == had.len() + 1,
        forall|k: int| 0 <= k < p ==> #[trigger] now[k] == had[k],
        now[p]@ == name,
        forall|k: int| p < k < now.len() ==> #[trigger] now[k] == had[k - 1],
        forall|k: int| 0 <= k < p ==> before((#[trigger] had[k])@, name),
        p < had.len() ==> before(name, had[p]@),
    ensures
        names_sorted(now),
        forall|n: Seq<char>| #[trigger] names_have(now, n) <==> names_have(had, n) || n == name,
{
    assert forall|i: int, j: int| 0 <= i < j < now.len() implies before(
        (#[trigger] now[i])@,
        (#[trigger] now[j])@,
    ) by {
        if j < p {
            assert(before(had[i]@, had[j]@));
        } else if j == p {
            assert(before(had[i]@, name));
        } else if i < p {
            assert(before(had[i]@, had[j - 1]@));
        } else if i == p {
            if j - 1 > p {
                assert(before(had[p]@, had[j - 1]@));
                lemma_before_trans(name, had[p]@, had[j - 1]@);
            }
        } else {
            assert(before(had[i - 1]@, had[j - 1]@));
        }
    }
    assert forall|n: Seq<char>| #[trigger] names_have(now, n) implies names_have(had, n) || n
        == name by {
        let i = choose|i: int| 0 <= i < now.len() && (#[trigger] now[i])@ == n;
        if i < p {
            assert(had[i]@ == n);
        } else if i > p {
            assert(had[i - 1]@ == n);
        }
    }
    assert forall|n: Seq<char>| names_have(had, n) || n == name implies #[trigger] names_have(
        now,
        n,
    ) by {
        if names_have(had, n) {
            let i = choose|i: int| 0 <= i < had.len() && (#[trigger] had[i])@ == n;
            if i < p {
                assert(now[i]@ == n);
            } else {
                assert(now[i + 1]@ == n);
            }
        } else {
            assert(now[p]@ == n);
        }
    }
}

/// Whether an app has a ledger row or a yield row.
pub open spec fn active(costs: Seq<CostRow>, yields: Seq<YieldRow>, app: Seq<char>) -> bool {
    ||| exists|i: int| 0 <= i < costs.len() && (#[trigger] costs[i]).app@ == app
    ||| exists|i: int| 0 <= i < yields.len() && (#[trigger] yields[i]).app@ == app
}

fn app_names(costs: &[CostRow], yields: &[YieldRow]) -> (r: Vec<String>)
    ensures
        names_sorted(r@),
        forall|n: Seq<char>| #[trigger] names_have(r@, n) <==> active(costs@, yields@, n),
{
    let mut names: Vec<String> = Vec::new();
    let mut i: usize = 0;
    while i < costs.len()
        invariant
            i <= costs@.len(),
            names_sorted(names@),
            forall|n: Seq<char>| #[trigger]
                names_have(names@, n) <==> exists|k: int|
                    0 <= k < i && (#[trigger] costs@[k]).app@ == n,
        decreases costs@.len() - i,
    {
        let ghost had = names@;
        add_name(&mut names, costs[i].app.as_str());
        proof {
            assert forall|n: Seq<char>| #[trigger] names_have(names@, n) <==> exists|k: int|
                0 <= k < i + 1 && (#[trigger] costs@[k]).app@ == n by {
                if n == costs@[i as int].app@ {
                    assert(costs@[i as int].app@ == n);
                }
                assert(names_have(had, n) || !names_have(had, n));
            }
        }
        i += 1;
    }
    let mut i: usize = 0;
    while i < yields.len()
        invariant
            i <= yields@.len(),
            names_sorted(names@),
            forall|n: Seq<char>| #[trigger]
                names_have(names@, n) <==> (exists|k: int|
                    0 <= k < costs@.len() && (#[trigger] costs@[k]).app@ == n) || (exists|k: int|
                    0 <= k < i && (#[trigger] yields@[k]).app@ == n),
        decreases yields@.len() - i,
    {
        let ghost had = names@;
        add_name(&mut names, yields[i].app.as_str());
        proof {
            assert forall|n: Seq<char>| #[trigger] names_have(names@, n) <==> (exists|k: int|
                0 <= k < costs@.len() && (#[trigger] costs@[k]).app@ == n) || (exists|k: int|
                0 <= k < i + 1 && (#[trigger] yields@[k]).app@ == n) by {
                if n == yields@[i as int].app@ {
                    assert(yields@[i as int].app@ == n);
                }
                assert(names_have(had, n) || !names_have(had, n));
            }
        }
        i += 1;
    }
    names
}

/// Whether the windows are those of every active app, in order of name.
pub open spec fn windows_are(
    windows: Seq<AppWindow>,
    costs: Seq<CostRow>,
    yields: Seq<YieldRow>,
) -> bool {
    &&& forall|i: int, j: int|
        0 <= i < j < windows.len() ==> before(
            (#[trigger] windows[i]).app@,
            (#[trigger] windows[j]).app@,
        )
    &&& forall|i: int|
        0 <= i < windows.len() ==> active(costs, yields, (#[trigger] windows[i]).app@) && window_is(
            windows[i],
            costs,
            yields,
        )
    &&& forall|app: Seq<char>| #[trigger]
        active(costs, yields, app) ==> exists|i: int|
            0 <= i < windows.len() && (#[trigger] windows[i]).app@ == app
}

/// One trailing window's aggregates, per app. Every app with spend or yield is in
/// it: a spender without yield is what the planner most wants to see. `None` when
/// some app's counts outgrow 64 bits.
pub fn window(costs: &[CostRow], yields: &[YieldRow]) -> (r: Option<Vec<AppWindow>>)
    ensures
        r is Some <==> forall|app: Seq<char>| #[trigger]
            active(costs@, yields@, app) ==> window_fits(costs@, yields@, app),
        r matches Some(w) ==> windows_are(w@, costs@, yields@),
{
    let names = app_names(costs, yields);
    let mut out: Vec<AppWindow> = Vec::new();
    let mut i: usize = 0;
    while i < names.len()
        invariant
            i <= names@.len(),
            out@.len() == i,
            names_sorted(names@),
            forall|n: Seq<char>| #[trigger] names_have(names@, n) <==> active(costs@, yields@, n),
            forall|k: int|
                0 <= k < i ==> (#[trigger] out@[k]).app@ == names@[k]@ && window_is(
                    out@[k],
                    costs@,
                    yields@,
                ) && window_fits(costs@, yields@, names@[k]@),
        decreases names@.len() - i,
    {
        match app_window(costs, yields, names[i].as_str()) {
            Some(w) => {
                out.push(w);
            },
            None => {
                assert(names_have(names@, names@[i as int]@));
                assert(active(costs@, yields@, names@[i as int]@));
                return None;
            },
        }
        i += 1;
    }
    proof {
        assert forall|app: Seq<char>| #[trigger] active(costs@, yields@, app) implies window_fits(
            costs@,
            yields@,
            app,
        ) && exists|k: int| 0 <= k < out@.len() && (#[trigger] out@[k]).app@ == app by {
            assert(names_have(names@, app));
            let k = choose|k: int| 0 <= k < names@.len() && (#[trigger] names@[k])@ == app;
            assert(out@[k].app@ == app);
        }
        assert forall|k: int| 0 <= k < out@.len() implies active(
            costs@,
            yields@,
            (#[trigger] out@[k]).app@,
        ) by {
            assert(names_have(names@, names@[k]@));
        }
        assert forall|a: int, b: int| 0 <= a < b < out@.len() implies before(
            (#[trigger] out@[a]).app@,
            (#[trigger] out@[b]).app@,
        ) by {
            assert(before(names@[a]@, names@[b]@));
        }
    }
    Some(out)
}

/// An app's fresh records over a window: the new and the changed ones.
pub open spec fn fresh_in(w: AppWindow) -> Option<int> {
    opt_sum(w.new, w.changed)
}

/// The fresh records of an app over the recent window; unknown for an app that is
/// not in it.
pub open spec fn recent_fresh(recent: Seq<AppWindow>, app: Seq<char>) -> Option<int>
    decreases recent.len(),
{
    if recent.len() == 0 {
        None
    } else if recent.last().app@ == app {
        fresh_in(recent.last())
    } else {
        recent_fresh(recent.drop_last(), app)
    }
}

/// Whether a count, where it is known, fits 64 bits.
pub open spec fn count_fits(n: Option<int>) -> bool {
    n matches Some(i) ==> i64::MIN <= i <= i64::MAX
}

/// A count as a 64-bit one.
pub open spec fn narrow(n: Option<int>) -> Option<i64> {
    match n {
        Some(i) => Some(i as i64),
        None => None,
    }
}

/// The fresh records of a window, unknown where both counts are. `None` when they
/// outgrow 64 bits.
pub fn window_fresh(w: &AppWindow) -> (r: Option<Option<i64>>)
    ensures
        match r {
            Some(n) => count_fits(fresh_in(*w)) && n == narrow(fresh_in(*w)),
            None => !count_fits(fresh_in(*w)),
        },
{
    if let (Some(a), Some(b)) = (w.new, w.changed) {
        return match a.checked_add(b) {
            Some(n) => Some(Some(n)),
            None => None,
        };
    }
    Some(opt_add(w.new, w.changed))
}

/// The advice for an app of the baseline window, its recent yield looked up in the
/// recent one. `None` when its fresh records outgrow 64 bits.
pub fn app_advice(recent: &[AppWindow], base: &AppWindow, spend: Spend) -> (r: Option<Advice>)
    ensures
        r is Some <==> count_fits(recent_fresh(recent@, base.app@)) && count_fits(fresh_in(*base)),
        r matches Some(a) ==> (a.budget_usd, a.cadence, a.reason@) == advice_of(
            base.jobs_with_yield,
            spend,
            narrow(recent_fresh(recent@, base.app@)),
            narrow(fresh_in(*base)),
        ),
{
    let mut i: usize = recent.len();
    let mut fresh_7d: Option<i64> = None;
    assert(recent@.take(recent@.len() as int) =~= recent@);
    while i > 0
        invariant_except_break
            i <= recent@.len(),
            recent_fresh(recent@, base.app@) == recent_fresh(recent@.take(i as int), base.app@),
            fresh_7d is None,
        ensures
            count_fits(recent_fresh(recent@, base.app@)),
            fresh_7d == narrow(recent_fresh(recent@, base.app@)),
        decreases i,
    {
        assert(recent@.take(i as int).drop_last() =~= recent@.take(i - 1));
        i -= 1;
        if same(recent[i].app.as_str(), base.app.as_str()) {
            match window_fresh(&recent[i]) {
                Some(n) => {
                    fresh_7d = n;
                },
                None => {
                    return None;
                },
            }
            break ;
        }
    }
    match window_fresh(base) {
        Some(fresh_30d) => Some(advise(base.jobs_with_yield, spend, fresh_7d, fresh_30d)),
        None => None,
    }
}

/// The advice follows the yield. Where the month's fresh records are unknown nothing
/// is advised. A month without any slows the cadence, and halves the budget of an
/// app that spends. A month with some keeps the budget at its headroom and moves the
/// cadence with the pace, which takes both windows.
pub proof fn law_advice_follows_the_yield(
    jobs: i64,
    spend: Spend,
    f7: Option<i64>,
    f30: Option<i64>,
)
    ensures
        ({
            let (budget, cadence, _) = advice_of(jobs, spend, f7, f30);
            let priced = jobs > 0 && 0 < spend.cost_usd < 0x7FF0_0000_0000_0000;
            match (f30, f7) {
                (None, _) => budget is None && cadence == Cadence::Keep,
                (Some(n), _) if n == 0 => {
                    &&& cadence == Cadence::Decrease
                    &&& priced && 0 < spend.half_usd < 0x7FF0_0000_0000_0000 ==> budget == Some(
                        spend.half_usd,
                    )
                    &&& !priced ==> budget is None
                },
                (Some(n), None) => cadence == Cadence::Keep,
                (Some(n), Some(m)) => {
                    &&& cadence == Cadence::Increase <==> m > 0 && 20 * m >= 7 * n
                    &&& cadence == Cadence::Decrease <==> !(m > 0 && 20 * m >= 7 * n) && 60 * m
                        <= 7 * n
                },
            }
        }),
        f30 is Some && f30->0 != 0 && jobs > 0 && 0 < spend.cost_usd < 0x7FF0_0000_0000_0000 && 0
            < spend.headroom_usd < 0x7FF0_0000_0000_0000 ==> advice_of(jobs, spend, f7, f30).0
            == Some(spend.headroom_usd),
{
    if f30 is Some && f7 is Some {
        law_pace_compares_daily_rates(f7->0 as int, f30->0 as int);
    }
}

/// An app's fresh records are its new and its changed ones: their sum where both
/// are known, the known one where one is, and unknown where neither is. The
/// unchanged ones never count.
pub proof fn law_fresh_records_are_new_or_changed(w: AppWindow)
    ensures
        fresh_in(w) == match (w.new, w.changed) {
            (Some(a), Some(b)) => Some(a + b),
            (Some(a), None) => Some(a as int),
            (None, Some(b)) => Some(b as int),
            (None, None) => None,
        },
{
}

/// The recent yield of an app is that of its own window, and unknown where it has
/// none.
pub proof fn law_recent_yield_is_the_apps_own(recent: Seq<AppWindow>, app: Seq<char>, i: int)
    requires
        0 <= i <= recent.len(),
        forall|k: int| i <= k < recent.len() ==> (#[trigger] recent[k]).app@ != app,
        i > 0 ==> recent[i - 1].app@ == app,
    ensures
        recent_fresh(recent, app) == if i > 0 {
            fresh_in(recent[i - 1])
        } else {
            None
        },
    decreases recent.len(),
{
    if i < recent.len() {
        assert(recent.last() == recent[recent.len() - 1]);
        law_recent_yield_is_the_apps_own(recent.drop_last(), app, i);
    }
}

/// The reason states the recent rate first and the baseline behind it.
pub proof fn law_the_reason_states_both_rates(f7: int, f30: int)
    ensures
        begins(pace_reason(f7, f30), "recent fresh-record rate "@ + rate_text(f7, 7)),
        occurs(rate_text(f30, 30) + "/day"@, pace_reason(f7, f30).skip(
            ("recent fresh-record rate "@ + rate_text(f7, 7)).len() as int,
        )),
{
    let head = "recent fresh-record rate "@ + rate_text(f7, 7);
    let base = rate_text(f30, 30);
    let day = "/day"@;
    let all = pace_reason(f7, f30);
    reveal_strlit("/day");
    reveal_strlit("/day — source is hot");
    reveal_strlit("/day — source has cooled");
    let (middle, tail) = match pace(f7, f30) {
        Pace::Hot => ("/day is ≥1.5× the 30d baseline "@, "/day — source is hot"@),
        Pace::Cooled => ("/day is ≤0.5× the 30d baseline "@, "/day — source has cooled"@),
        Pace::Steady => ("/day tracks the 30d baseline "@, "/day"@),
    };
    assert(all =~= head + middle + base + tail);
    assert(all.take(head.len() as int) =~= head);
    assert(tail.take(4) =~= day);
    let rest = all.skip(head.len() as int);
    assert(rest =~= middle + (base + day) + tail.skip(4));
}

/// A rate is shown with its sign, its whole part, a point and two digits.
pub proof fn law_a_rate_is_shown_to_two_places(count: int, days: nat)
    requires
        days > 0,
    ensures
        ({
            let size = (if count < 0 {
                -count
            } else {
                count
            }) as nat;
            let h = hundredths(size, days);
            let whole = decimal((h / 100) as int);
            let text = if count < 0 {
                rate_text(count, days).skip(1)
            } else {
                rate_text(count, days)
            };
            &&& count < 0 ==> rate_text(count, days)[0] == '-'
            &&& text.len() == whole.len() + 3
            &&& text.take(whole.len() as int) == whole
            &&& text[whole.len() as int] == '.'
            &&& value(text.skip(whole.len() as int + 1)) == h % 100
        }),
{
    let size = (if count < 0 {
        -count
    } else {
        count
    }) as nat;
    let h = hundredths(size, days);
    let whole = decimal((h / 100) as int);
    let part = padded(h % 100, 2);
    reveal_with_fuel(tens, 3);
    assert(tens(2) == 100);
    law_padding_keeps_the_number(h % 100, 2);
    let text = whole + seq!['.'] + part;
    assert(rate_text(count, days) =~= if count < 0 {
        seq!['-'] + text
    } else {
        text
    });
    assert((seq!['-'] + text).skip(1) =~= text);
    assert(text.take(whole.len() as int) =~= whole);
    assert(text.skip(whole.len() as int + 1) =~= part);
}

/// Every app with a ledger row or a yield row has a window of its own, no other app
/// has one, and none has two.
pub proof fn law_every_active_app_has_one_window(
    windows: Seq<AppWindow>,
    costs: Seq<CostRow>,
    yields: Seq<YieldRow>,
)
    requires
        windows_are(windows, costs, yields),
    ensures
        forall|k: int|
            0 <= k < costs.len() ==> exists|i: int|
                0 <= i < windows.len() && (#[trigger] windows[i]).app@ == (
                #[trigger] costs[k]).app@,
        forall|k: int|
            0 <= k < yields.len() ==> exists|i: int|
                0 <= i < windows.len() && (#[trigger] windows[i]).app@ == (
                #[trigger] yields[k]).app@,
        forall|i: int|
            0 <= i < windows.len() ==> {
                ||| exists|k: int|
                    0 <= k < costs.len() && (#[trigger] costs[k]).app@ == (
                    #[trigger] windows[i]).app@
                ||| exists|k: int|
                    0 <= k < yields.len() && (#[trigger] yields[k]).app@ == windows[i].app@
            },
        forall|i: int, j: int|
            0 <= i < j < windows.len() ==> (#[trigger] windows[i]).app@ != (
            #[trigger] windows[j]).app@,
        forall|i: int| 0 <= i < windows.len() ==> window_is(#[trigger] windows[i], costs, yields),
{
    assert forall|k: int| 0 <= k < costs.len() implies exists|i: int|
        0 <= i < windows.len() && (#[trigger] windows[i]).app@ == (#[trigger] costs[k]).app@ by {
        assert(active(costs, yields, costs[k].app@));
    }
    assert forall|k: int| 0 <= k < yields.len() implies exists|i: int|
        0 <= i < windows.len() && (#[trigger] windows[i]).app@ == (#[trigger] yields[k]).app@ by {
        assert(active(costs, yields, yields[k].app@));
    }
    assert forall|i: int, j: int| 0 <= i < j < windows.len() implies (#[trigger] windows[i]).app@
        != (#[trigger] windows[j]).app@ by {
        lemma_rank(windows[i].app@, windows[j].app@);
    }
    assert forall|i: int| 0 <= i < windows.len() implies {
        ||| exists|k: int|
            0 <= k < costs.len() && (#[trigger] costs[k]).app@ == (#[trigger] windows[i]).app@
        ||| exists|k: int|
            0 <= k < yields.len() && (#[trigger] yields[k]).app@ == windows[i].app@
    } by {
        assert(active(costs, yields, windows[i].app@));
    }
}

/// An app's window can be had wherever its counts do not overrun: where it has no rows
/// at all, and after one ledger row more exactly where the row's calls still add up,
/// for the app and, on the paid tier, for that tier as well.
pub proof fn law_a_window_fits_while_its_counts_add_up(
    costs: Seq<CostRow>,
    yields: Seq<YieldRow>,
    app: Seq<char>,
    row: CostRow,
)
    ensures
        window_fits(Seq::empty(), Seq::empty(), app),
        row.app@ != app ==> (window_fits(costs.push(row), yields, app) <==> window_fits(
            costs,
            yields,
            app,
        )),
        row.app@ == app ==> (window_fits(costs.push(row), yields, app) <==> window_fits(
            costs,
            yields,
            app,
        ) && i64::MIN <= sum_of(calls_of(costs, app, false)) + row.calls <= i64::MAX && (
        row.engine is Claude ==> i64::MIN <= sum_of(calls_of(costs, app, true)) + row.calls
            <= i64::MAX)),
{
    let more = costs.push(row);
    assert(more.drop_last() =~= costs);
    law_a_sum_fits_while_each_step_does(calls_of(costs, app, false), row.calls);
    law_a_sum_fits_while_each_step_does(calls_of(costs, app, true), row.calls);
    law_a_sum_fits_while_each_step_does(Seq::empty(), 0);
}

/// A spend counts as one exactly where its cost is a number above zero.
pub proof fn law_a_spend_is_a_cost_above_zero(s: Spend)
    ensures
        s.is_positive() <==> 1 <= s.cost_usd && s.cost_usd <= 0x7FF0_0000_0000_0000,
{
}

} // verus!
