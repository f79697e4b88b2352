//! Event streams: resuming a client from the ring or the durable log, keeping a
//! live subscriber in order, and paging the log.

use vstd::prelude::*;

use crate::datasets::{clamp, clamped};
use crate::error::{ApiError, CONFLICT};
use crate::jobs::{is_terminal, law_status_texts_are_distinct, JobStatus};
use crate::json::{lemma_put, models, Json, JsonModel};
use crate::number::{
    decimal, law_unsigned_round_trip, lemma_decimal_is_trimmed, read_u64, u64_of,
};
use crate::text::{chars, trim_chars, trimmed};

verus! {

/// Events one page of the log may return.
pub const MAX_LOG_PAGE: i64 = 500;

/// Most events a connect-time replay serves out of the durable log; a client
/// further behind pages the log at its own pace.
pub const MAX_LOG_RESUME: usize = 10_000;

/// The sequence id a `Last-Event-ID` header names.
pub fn last_event_id(header: Option<&str>) -> (r: Option<u64>)
    ensures
        r == match header {
            Some(h) => u64_of(trimmed(h@)),
            None => None,
        },
{
    match header {
        Some(h) => {
            let cs = chars(h);
            read_u64(trim_chars(&cs))
        },
        None => None,
    }
}

/// The id an event is sent with is read back as its sequence id.
pub proof fn law_event_id_round_trip(seq: u64)
    ensures
        u64_of(trimmed(decimal(seq as int))) == Some(seq),
{
    lemma_decimal_is_trimmed(seq as int);
    law_unsigned_round_trip(seq);
}

/// A row of the durable log: its sequence id, and whether its body still reads.
#[derive(Debug, Clone, Copy, PartialEq, Eq, Structural)]
pub struct LogRow {
    pub seq: u64,
    pub readable: bool,
}

/// A replay out of the durable log, in progress.
#[derive(Debug, PartialEq)]
pub struct LogReplay {
    pub latest: u64,
    pub after: u64,
    /// The last row that was taken in.
    pub cursor: u64,
    /// The events found so far, by sequence id.
    pub found: Vec<u64>,
}

/// What a replay comes to.
#[derive(Debug, PartialEq)]
pub enum Replay {
    /// These events close the gap.
    Events(Vec<u64>),
    /// The gap is gone from both the ring and the log; the client must resync at
    /// this sequence id.
    Reset(u64),
    /// The log is to be read past the replay's cursor.
    ReadLog(LogReplay),
}

/// Whether the ring covers the gap completely: its first event is the one right
/// after the client's. An empty ring covers nothing.
pub open spec fn ring_covers(ring: Option<Seq<u64>>, after: u64) -> bool {
    ring matches Some(events) && events.len() > 0 && events[0] == after + 1
}

/// Whether more of the log is wanted.
pub open spec fn wants_more(found: Seq<u64>, latest: u64, after: u64) -> bool {
    found.len() < latest - after
}

/// Starts a replay: nothing when the client is current, the ring's events when
/// they cover the gap, and the log otherwise.
pub fn replay_start(latest: u64, after: u64, ring: Option<&[u64]>, logs: bool) -> (r: Replay)
    ensures
        ({
            let view = match ring {
                Some(events) => Some(events@),
                None => None,
            };
            if after >= latest {
                r matches Replay::Events(v) && v@ == Seq::<u64>::empty()
            } else if ring_covers(view, after) {
                r matches Replay::Events(v) && v@ == view->0
            } else if !logs {
                r == Replay::Reset(latest)
            } else {
                &&& r matches Replay::ReadLog(walk)
                &&& walk.latest == latest && walk.after == after && walk.cursor == after
                &&& walk.found@ == Seq::<u64>::empty()
            }
        }),
{
    if after >= latest {
        return Replay::Events(Vec::new());
    }
    if let Some(events) = ring {
        if events.len() > 0 && events[0] == after + 1 {
            return Replay::Events(vstd::slice::slice_to_vec(events));
        }
    }
    if !logs {
        return Replay::Reset(latest);
    }
    Replay::ReadLog(LogReplay { latest, after, cursor: after, found: Vec::new() })
}

/// What a page of the log adds to a replay: the events found and the new cursor,
/// or nothing when the gap cannot be closed. Until something was found each row
/// must follow the cursor directly; an unreadable row is skipped.
pub open spec fn absorbed(found: Seq<u64>, cursor: u64, page: Seq<LogRow>) -> Option<
    (Seq<u64>, u64),
>
    decreases page.len(),
{
    if page.len() == 0 {
        Some((found, cursor))
    } else {
        let row = page[0];
        if found.len() == 0 && row.seq != cursor + 1 {
            None
        } else {
            let now = if row.readable {
                found.push(row.seq)
            } else {
                found
            };
            if now.len() >= 10_000 {
                None
            } else {
                absorbed(now, row.seq, page.drop_first())
            }
        }
    }
}

/// Takes in one page of the log, or the failure to read it. The replay is over
/// when the log has no more or the gap is closed. A log that has nothing at all
/// past the client's cursor lost the gap: that is a reset, not an empty replay.
pub fn replay_page(walk: LogReplay, page: Option<&[LogRow]>) -> (r: Replay)
    requires
        walk.after <= walk.latest,
    ensures
        match page {
            None => r == Replay::Reset(walk.latest),
            Some(rows) => if rows@.len() == 0 {
                r == if walk.cursor == walk.after {
                    Replay::Reset(walk.latest)
                } else {
                    Replay::Events(walk.found)
                }
            } else {
                match absorbed(walk.found@, walk.cursor, rows@) {
                    None => r == Replay::Reset(walk.latest),
                    Some((found, cursor)) => if wants_more(found, walk.latest, walk.after) {
                        &&& r matches Replay::ReadLog(next)
                        &&& next.found@ == found && next.cursor == cursor
                        &&& next.latest == walk.latest && next.after == walk.after
                    } else {
                        r matches Replay::Events(v) && v@ == found
                    },
                }
            },
        },
{
    let rows = match page {
        None => {
            return Replay::Reset(walk.latest);
        },
        Some(rows) => rows,
    };
    if rows.len() == 0 {
        if walk.cursor == walk.after {
            return Replay::Reset(walk.latest);
        }
        return Replay::Events(walk.found);
    }
    let latest = walk.latest;
    let after = walk.after;
    let ghost start = absorbed(walk.found@, walk.cursor, rows@);
    let mut found = walk.found;
    let mut cursor = walk.cursor;
    let mut i: usize = 0;
    assert(rows@.skip(0) =~= rows@);
    while i < rows.len()
        invariant
            i <= rows@.len(),
            latest == walk.latest,
            page matches Some(p) && p@ == rows@,
            rows@.len() > 0,
            start == absorbed(walk.found@, walk.cursor, rows@),
            absorbed(found@, cursor, rows@.skip(i as int)) == start,
        decreases rows@.len() - i,
    {
        let row = rows[i];
        assert(rows@.skip(i as int)[0] == row);
        assert(rows@.skip(i as int).drop_first() =~= rows@.skip(i + 1));
        if found.len() == 0 && (cursor == u64::MAX || row.seq != cursor + 1) {
            return Replay::Reset(latest);
        }
        cursor = row.seq;
        if row.readable {
            found.push(row.seq);
        }
        if found.len() >= MAX_LOG_RESUME {
            return Replay::Reset(latest);
        }
        i += 1;
    }
    assert(rows@.skip(rows@.len() as int) =~= Seq::empty());
    if (found.len() as u64) < latest - after {
        Replay::ReadLog(LogReplay { latest, after, cursor, found })
    } else {
        Replay::Events(found)
    }
}

/// A log that has been pruned past the client's cursor is a reset, never a
/// silently shortened replay.
pub proof fn law_a_pruned_log_is_a_reset(after: u64, page: Seq<LogRow>)
    requires
        page.len() > 0,
        page[0].seq != after + 1,
    ensures
        absorbed(Seq::empty(), after, page) is None,
{
}

/// A ring whose events follow each other without a gap answers a resume exactly
/// where it begins with the very next event; what it then sends is every event
/// after the resume point, none skipped and none repeated.
pub proof fn law_a_ring_answers_only_what_it_holds_whole(events: Seq<u64>, after: u64)
    requires
        forall|i: int, j: int|
            #![trigger events[i], events[j]]
            0 <= i < events.len() && 0 <= j < events.len() ==> events[j] - events[i] == j - i,
    ensures
        ring_covers(Some(events), after) <==> events.len() > 0 && forall|i: int|
            0 <= i < events.len() ==> #[trigger] events[i] == after + 1 + i,
        !ring_covers(None, after),
{
    if ring_covers(Some(events), after) {
        assert forall|i: int| 0 <= i < events.len() implies #[trigger] events[i] == after + 1
            + i by {
            assert(events[i] - events[0] == i - 0);
        }
    }
    if events.len() > 0 {
        assert(events[0] == events[0]);
    }
}

/// A page is taken in whole: every readable row of it is found, in order, and the
/// cursor stands at its last row. It is refused only where the log no longer holds
/// the event right after the cursor, as long as nothing was found, or where what is
/// found reaches the most a resume may send.
pub proof fn law_a_page_is_taken_whole_or_refused(
    found: Seq<u64>,
    cursor: u64,
    page: Seq<LogRow>,
)
    requires
        page.len() > 0,
    ensures
        match absorbed(found, cursor, page) {
            Some((now, at)) => {
                &&& now == found + readable_seqs(page)
                &&& at == page.last().seq
                &&& now.len() < 10_000
                &&& found.len() == 0 ==> page[0].seq == cursor + 1
            },
            None => {
                ||| found.len() + readable_seqs(page).len() >= 10_000
                ||| found.len() == 0 && exists|k: int|
                    {
                        &&& 0 <= k < page.len()
                        &&& forall|j: int| 0 <= j < k ==> !(#[trigger] page[j]).readable
                        &&& (#[trigger] page[k]).seq != 1 + if k == 0 {
                            cursor
                        } else {
                            page[k - 1].seq
                        }
                    }
            },
        },
    decreases page.len(),
{
    let row = page[0];
    let rest = page.drop_first();
    let now = if row.readable {
        found.push(row.seq)
    } else {
        found
    };
    assert(found + readable_seqs(page) =~= now + readable_seqs(rest));
    if found.len() == 0 && row.seq != cursor + 1 {
        assert(page[0].seq != 1 + cursor);
    } else if now.len() >= 10_000 {
    } else if rest.len() == 0 {
        assert(absorbed(now, row.seq, rest) == Some((now, row.seq)));
        assert(readable_seqs(rest) =~= Seq::empty());
    } else {
        law_a_page_is_taken_whole_or_refused(now, row.seq, rest);
        assert(rest.last() == page.last());
        if absorbed(now, row.seq, rest) is None && now.len() + readable_seqs(rest).len() < 10_000 {
            let k = choose|k: int|
                {
                    &&& 0 <= k < rest.len()
                    &&& forall|j: int| 0 <= j < k ==> !(#[trigger] rest[j]).readable
                    &&& (#[trigger] rest[k]).seq != 1 + if k == 0 {
                        row.seq
                    } else {
                        rest[k - 1].seq
                    }
                };
            assert(page[k + 1] == rest[k]);
            assert forall|j: int| 0 <= j < k + 1 implies !(#[trigger] page[j]).readable by {
                if j > 0 {
                    assert(page[j] == rest[j - 1]);
                }
            }
            if k > 0 {
                assert(page[k] == rest[k - 1]);
            }
        }
    }
}

/// A resume reads on exactly while it has found fewer events than were missed.
pub proof fn law_a_resume_reads_on_until_nothing_is_missing(
    found: Seq<u64>,
    latest: u64,
    after: u64,
)
    requires
        after <= latest,
    ensures
        found.len() == latest - after ==> !wants_more(found, latest, after),
        found.len() + 1 == latest - after ==> wants_more(found, latest, after),
        forall|less: Seq<u64>|
            less.len() <= found.len() && wants_more(found, latest, after) ==> #[trigger] wants_more(
                less,
                latest,
                after,
            ),
{
}

/// The sequence ids of the readable rows.
pub open spec fn readable_seqs(rows: Seq<LogRow>) -> Seq<u64>
    decreases rows.len(),
{
    if rows.len() == 0 {
        Seq::empty()
    } else {
        let rest = readable_seqs(rows.drop_first());
        if rows[0].readable {
            seq![rows[0].seq] + rest
        } else {
            rest
        }
    }
}

/// Whether the rows follow `cursor` without a gap.
pub open spec fn unbroken(cursor: u64, rows: Seq<LogRow>) -> bool {
    forall|i: int| 0 <= i < rows.len() ==> (#[trigger] rows[i]).seq == cursor + 1 + i
}

/// What a replay comes to over a log that holds `rows` past its cursor and hands
/// out at most 500 at a time: the events that close the gap, or nothing for a
/// reset.
pub open spec fn log_walk(
    found: Seq<u64>,
    cursor: u64,
    rows: Seq<LogRow>,
    latest: u64,
    after: u64,
) -> Option<Seq<u64>>
    decreases rows.len(),
{
    if rows.len() == 0 {
        if cursor == after {
            None
        } else {
            Some(found)
        }
    } else {
        let size: int = if rows.len() < 500 {
            rows.len() as int
        } else {
            500
        };
        match absorbed(found, cursor, rows.take(size)) {
            None => None,
            Some((now, at)) => if wants_more(now, latest, after) {
                log_walk(now, at, rows.skip(size), latest, after)
            } else {
                Some(now)
            },
        }
    }
}

/// A log that holds the whole gap is replayed whole, over however many pages: every
/// readable row, in order, and nothing else.
pub proof fn law_an_unbroken_log_is_replayed_whole(after: u64, latest: u64, rows: Seq<LogRow>)
    requires
        0 < rows.len() < 10_000,
        rows.len() == latest - after,
        unbroken(after, rows),
    ensures
        log_walk(Seq::empty(), after, rows, latest, after) == Some(readable_seqs(rows)),
{
    lemma_walk(Seq::empty(), after, rows, latest, after);
    assert(Seq::<u64>::empty() + readable_seqs(rows) =~= readable_seqs(rows));
}

proof fn lemma_walk(found: Seq<u64>, cursor: u64, rows: Seq<LogRow>, latest: u64, after: u64)
    requires
        after <= cursor,
        cursor + rows.len() == latest,
        rows.len() > 0 || cursor > after,
        found.len() <= cursor - after,
        latest - after < 10_000,
        unbroken(cursor, rows),
    ensures
        log_walk(found, cursor, rows, latest, after) == Some(found + readable_seqs(rows)),
    decreases rows.len(),
{
    if rows.len() == 0 {
        assert(found + readable_seqs(rows) =~= found);
    } else {
        let size: int = if rows.len() < 500 {
            rows.len() as int
        } else {
            500
        };
        let page = rows.take(size);
        let rest = rows.skip(size);
        lemma_absorbed(found, cursor, page);
        lemma_readable_splits(rows, size);
        lemma_readable_count(page);
        lemma_readable_count(rest);
        let now = found + readable_seqs(page);
        let at = (cursor + size) as u64;
        assert forall|i: int| 0 <= i < rest.len() implies (#[trigger] rest[i]).seq == at + 1 + i by {
            assert(rows[i + size].seq == cursor + 1 + (i + size));
        }
        assert(found + readable_seqs(rows) =~= now + readable_seqs(rest));
        if wants_more(now, latest, after) {
            lemma_walk(now, at, rest, latest, after);
        } else {
            assert(rest.len() == 0);
            assert(now + readable_seqs(rest) =~= now);
        }
    }
}

proof fn lemma_absorbed(found: Seq<u64>, cursor: u64, page: Seq<LogRow>)
    requires
        found.len() + page.len() < 10_000,
        cursor + page.len() <= u64::MAX,
        unbroken(cursor, page),
    ensures
        absorbed(found, cursor, page) == Some(
            (found + readable_seqs(page), (cursor + page.len()) as u64),
        ),
    decreases page.len(),
{
    if page.len() == 0 {
        assert(found + readable_seqs(page) =~= found);
    } else {
        let row = page[0];
        let rest = page.drop_first();
        let now = if row.readable {
            found.push(row.seq)
        } else {
            found
        };
        assert forall|i: int| 0 <= i < rest.len() implies (#[trigger] rest[i]).seq == row.seq + 1
            + i by {
            assert(page[i + 1].seq == cursor + 1 + (i + 1));
        }
        lemma_absorbed(now, row.seq, rest);
        assert(now + readable_seqs(rest) =~= found + readable_seqs(page));
    }
}

proof fn lemma_readable_splits(rows: Seq<LogRow>, n: int)
    requires
        0 <= n <= rows.len(),
    ensures
        readable_seqs(rows) == readable_seqs(rows.take(n)) + readable_seqs(rows.skip(n)),
    decreases n,
{
    if n == 0 {
        assert(rows.skip(0) =~= rows);
        assert(readable_seqs(rows.take(0)) + readable_seqs(rows) =~= readable_seqs(rows));
    } else {
        let rest = rows.drop_first();
        lemma_readable_splits(rest, n - 1);
        assert(rows.take(n).drop_first() =~= rest.take(n - 1));
        assert(rows.skip(n) =~= rest.skip(n - 1));
        assert(readable_seqs(rows) =~= readable_seqs(rows.take(n)) + readable_seqs(rows.skip(n)));
    }
}

proof fn lemma_readable_count(rows: Seq<LogRow>)
    ensures
        readable_seqs(rows).len() <= rows.len(),
    decreases rows.len(),
{
    if rows.len() > 0 {
        lemma_readable_count(rows.drop_first());
    }
}

/// An event of a replay: its sequence id, whether it is in the stream's scope, and
/// whether it ends the stream.
#[derive(Debug, Clone, Copy, PartialEq, Eq, Structural)]
pub struct Missed {
    pub seq: u64,
    pub in_scope: bool,
    pub terminal: bool,
}

/// Whether an event with this status ends the stream of its job: the job is over.
pub fn ends_job(status: &str) -> (r: bool)
    ensures
        r == exists|s: JobStatus| s.terminal() && #[trigger] s.text() == status@,
{
    match JobStatus::parse(status) {
        None => false,
        Some(s) => {
            proof {
                assert forall|t: JobStatus| #[trigger] t.text() == status@ implies t == s by {
                    law_status_texts_are_distinct(t, s);
                }
            }
            is_terminal(s)
        },
    }
}

/// Whether a replay holds an event that ends the stream.
pub open spec fn ends_stream(events: Seq<Missed>) -> bool {
    exists|i: int| 0 <= i < events.len() && (#[trigger] events[i]).in_scope && events[i].terminal
}

/// The events of a replay that are sent: those in scope, up to the first that ends
/// the stream.
pub open spec fn delivered(events: Seq<Missed>) -> Seq<u64>
    decreases events.len(),
{
    if events.len() == 0 {
        Seq::empty()
    } else if !events[0].in_scope {
        delivered(events.drop_first())
    } else if events[0].terminal {
        seq![events[0].seq]
    } else {
        seq![events[0].seq] + delivered(events.drop_first())
    }
}

/// Where a delivered replay leaves the client: the sequence id of the last event it
/// took, or where it was when there was none.
pub open spec fn delivered_to(events: Seq<Missed>, after: u64) -> u64
    decreases events.len(),
{
    if events.len() == 0 {
        after
    } else if events[0].in_scope && events[0].terminal {
        events[0].seq
    } else {
        delivered_to(events.drop_first(), events[0].seq)
    }
}

/// What is delivered is every missed event in scope, in order, up to and with the
/// first that ends the stream; the stream stands at the last event looked at.
pub proof fn law_a_delivery_goes_to_the_first_end(events: Seq<Missed>, after: u64, n: int)
    requires
        0 <= n <= events.len(),
        forall|i: int|
            0 <= i < n - 1 ==> !((#[trigger] events[i]).in_scope && events[i].terminal),
        n == events.len() || (n > 0 && events[n - 1].in_scope && events[n - 1].terminal),
    ensures
        delivered(events) == seqs_in_scope(events.take(n)),
        delivered_to(events, after) == if n == 0 {
            after
        } else {
            events[n - 1].seq
        },
    decreases events.len(),
{
    if n > 0 {
        let rest = events.drop_first();
        let first = events.take(n);
        assert(first.drop_first() =~= rest.take(n - 1));
        assert(first[0] == events[0]);
        if n > 1 {
            assert(!(events[0].in_scope && events[0].terminal));
            assert forall|i: int| 0 <= i < n - 2 implies !((#[trigger] rest[i]).in_scope
                && rest[i].terminal) by {
                assert(rest[i] == events[i + 1]);
            }
            law_a_delivery_goes_to_the_first_end(rest, events[0].seq, n - 1);
        } else if events[0].in_scope && events[0].terminal {
            assert(rest.take(0) =~= Seq::empty());
            assert(seqs_in_scope(rest.take(0)) =~= Seq::empty());
            assert(delivered(events) =~= seqs_in_scope(first));
        } else {
            law_a_delivery_goes_to_the_first_end(rest, events[0].seq, 0);
        }
    } else {
        assert(events.take(0) =~= Seq::empty());
    }
}

/// The places of the events in scope, in order.
pub open spec fn seqs_in_scope(events: Seq<Missed>) -> Seq<u64>
    decreases events.len(),
{
    if events.len() == 0 {
        Seq::empty()
    } else {
        let rest = seqs_in_scope(events.drop_first());
        if events[0].in_scope {
            seq![events[0].seq] + rest
        } else {
            rest
        }
    }
}

/// What a stream makes of a replay.
#[derive(Debug, PartialEq)]
pub struct Delivery {
    /// The sequence ids of the events to send.
    pub sent: Vec<u64>,
    /// The sequence id the stream has then reached.
    pub last_seq: u64,
    /// Whether the stream ends with them.
    pub ended: bool,
}

/// What a stream sends of a replay, and the sequence id it has then reached. An
/// event out of scope is not sent, but it still counts as seen. An event in scope
/// that ends the stream is the last one sent.
pub fn deliver(events: &[Missed], after: u64) -> (r: Delivery)
    ensures
        r.sent@ == delivered(events@),
        r.last_seq == delivered_to(events@, after),
        r.ended == ends_stream(events@),
{
    let mut sent: Vec<u64> = Vec::new();
    let mut last: u64 = after;
    let mut i: usize = 0;
    assert(events@.skip(0) =~= events@);
    while i < events.len()
        invariant
            i <= events@.len(),
            delivered(events@) == sent@ + delivered(events@.skip(i as int)),
            delivered_to(events@, after) == delivered_to(events@.skip(i as int), last),
            forall|k: int|
                0 <= k < i ==> !((#[trigger] events@[k]).in_scope && events@[k].terminal),
        decreases events@.len() - i,
    {
        let ghost rest = events@.skip(i as int);
        assert(rest.drop_first() =~= events@.skip(i + 1));
        assert(rest[0] == events@[i as int]);
        let ghost before = sent@;
        last = events[i].seq;
        if events[i].in_scope {
            sent.push(events[i].seq);
            assert(sent@ =~= before + seq![events@[i as int].seq]);
            if events[i].terminal {
                return Delivery { sent, last_seq: last, ended: true };
            }
            assert(before + (seq![rest[0].seq] + delivered(rest.drop_first())) =~= sent@
                + delivered(rest.drop_first()));
        }
        i += 1;
    }
    assert(events@.skip(i as int) =~= Seq::<Missed>::empty());
    assert(sent@ + Seq::<u64>::empty() =~= sent@);
    Delivery { sent, last_seq: last, ended: false }
}

/// What a live subscriber received.
#[derive(Debug, Clone, Copy, PartialEq, Eq, Structural)]
pub enum Received {
    /// An event, whether it is in the stream's scope, and whether it ends it.
    Event { seq: u64, in_scope: bool, terminal: bool },
    /// The subscriber fell behind the broadcast buffer.
    Lagged,
    /// The bus is gone, or the process is shutting down.
    Ended,
}

/// What a live stream does next.
#[derive(Debug, Clone, Copy, PartialEq, Eq, Structural)]
pub enum LiveAction {
    Skip,
    Send,
    SendAndEnd,
    Recover,
    End,
}

/// Where a live stream stands after what it received, and what it does about it.
pub open spec fn live_next(last: u64, received: Received) -> (u64, LiveAction) {
    match received {
        Received::Lagged => (last, LiveAction::Recover),
        Received::Ended => (last, LiveAction::End),
        Received::Event { seq, in_scope, terminal } => if seq <= last {
            (last, LiveAction::Skip)
        } else if !in_scope {
            (seq, LiveAction::Skip)
        } else if terminal {
            (seq, LiveAction::SendAndEnd)
        } else {
            (seq, LiveAction::Send)
        },
    }
}

/// One step of a live stream. An event that a replay already delivered is
/// skipped, so that what is sent carries ever greater sequence ids.
pub fn live_step(last_seq: &mut u64, received: Received) -> (r: LiveAction)
    ensures
        match received {
            Received::Lagged => r == LiveAction::Recover && *final(last_seq) == *old(last_seq),
            Received::Ended => r == LiveAction::End && *final(last_seq) == *old(last_seq),
            Received::Event { seq, in_scope, terminal } => {
                &&& *final(last_seq) == if seq > *old(last_seq) {
                    seq
                } else {
                    *old(last_seq)
                }
                &&& r == if seq <= *old(last_seq) || !in_scope {
                    LiveAction::Skip
                } else if terminal {
                    LiveAction::SendAndEnd
                } else {
                    LiveAction::Send
                }
            },
        },
        (*final(last_seq), r) == live_next(*old(last_seq), received),
{
    match received {
        Received::Lagged => LiveAction::Recover,
        Received::Ended => LiveAction::End,
        Received::Event { seq, in_scope, terminal } => {
            if seq <= *last_seq {
                return LiveAction::Skip;
            }
            *last_seq = seq;
            if !in_scope {
                LiveAction::Skip
            } else if terminal {
                LiveAction::SendAndEnd
            } else {
                LiveAction::Send
            }
        },
    }
}

/// The sequence ids a live stream sends of what it receives, up to the first lag
/// or end.
pub open spec fn sent_live(last: u64, received: Seq<Received>) -> Seq<u64>
    decreases received.len(),
{
    if received.len() == 0 {
        Seq::empty()
    } else {
        match received[0] {
            Received::Event { seq, in_scope, terminal } => if seq <= last {
                sent_live(last, received.drop_first())
            } else if !in_scope {
                sent_live(seq, received.drop_first())
            } else if terminal {
                seq![seq]
            } else {
                seq![seq] + sent_live(seq, received.drop_first())
            },
            _ => Seq::empty(),
        }
    }
}

/// A live stream never goes back: an event is sent exactly where it is in scope and
/// later than all before it, it ends the stream exactly where it is the job's last,
/// and every later event moves the stream on, sent or not. What the steps send is what
/// the stream sends.
pub proof fn law_a_live_stream_moves_only_on(last: u64, received: Seq<Received>)
    requires
        received.len() > 0,
    ensures
        ({
            let (now, action) = live_next(last, received[0]);
            let rest = sent_live(now, received.drop_first());
            &&& now >= last
            &&& received[0] matches Received::Event { seq, in_scope, terminal } ==> {
                &&& now >= seq
                &&& now == last || now == seq
                &&& action == LiveAction::Send || action == LiveAction::SendAndEnd <==> seq > last
                    && in_scope
                &&& action == LiveAction::SendAndEnd ==> terminal
                &&& action == LiveAction::Send ==> !terminal
                &&& sent_live(last, received) == match action {
                    LiveAction::Send => seq![seq] + rest,
                    LiveAction::SendAndEnd => seq![seq],
                    _ => rest,
                }
            }
            &&& received[0] is Lagged <==> action == LiveAction::Recover
            &&& received[0] is Ended <==> action == LiveAction::End
            &&& received[0] is Lagged || received[0] is Ended ==> now == last && sent_live(
                last,
                received,
            ).len() == 0
        }),
{
}

/// Events as a live subscriber receives them.
pub open spec fn as_received(events: Seq<Missed>) -> Seq<Received> {
    Seq::new(
        events.len(),
        |i: int|
            Received::Event {
                seq: events[i].seq,
                in_scope: events[i].in_scope,
                terminal: events[i].terminal,
            },
    )
}

/// Whether the sequence ids rise, all past `after`.
pub open spec fn rising(events: Seq<Missed>, after: u64) -> bool {
    &&& forall|i: int| 0 <= i < events.len() ==> (#[trigger] events[i]).seq > after
    &&& forall|i: int, j: int|
        0 <= i < j < events.len() ==> (#[trigger] events[i]).seq < (#[trigger] events[j]).seq
}

/// A replay is delivered as if its events had come live, on connect and after a lag
/// alike: with an event that ends the stream nothing follows it, not even what was
/// received meanwhile; without one the stream goes on from where the replay left it.
pub proof fn law_a_replay_ends_a_stream_as_live_events_do(
    events: Seq<Missed>,
    after: u64,
    received: Seq<Received>,
)
    requires
        rising(events, after),
    ensures
        sent_live(after, as_received(events) + received) == if ends_stream(events) {
            delivered(events)
        } else {
            delivered(events) + sent_live(delivered_to(events, after), received)
        },
    decreases events.len(),
{
    let all = as_received(events) + received;
    if events.len() == 0 {
        assert(all =~= received);
        assert(delivered(events) + sent_live(after, received) =~= sent_live(after, received));
    } else {
        let first = events[0];
        let rest = events.drop_first();
        assert(all.drop_first() =~= as_received(rest) + received);
        assert(all[0] == Received::Event {
            seq: first.seq,
            in_scope: first.in_scope,
            terminal: first.terminal,
        });
        if !(first.in_scope && first.terminal) {
            assert(rising(rest, first.seq)) by {
                assert forall|i: int| 0 <= i < rest.len() implies (#[trigger] rest[i]).seq
                    > first.seq by {
                    assert(events[0].seq < events[i + 1].seq);
                }
                assert forall|i: int, j: int| 0 <= i < j < rest.len() implies (
                #[trigger] rest[i]).seq < (#[trigger] rest[j]).seq by {
                    assert(events[i + 1].seq < events[j + 1].seq);
                }
            }
            law_a_replay_ends_a_stream_as_live_events_do(rest, first.seq, received);
            assert(ends_stream(events) == ends_stream(rest)) by {
                if ends_stream(rest) {
                    let k = choose|k: int|
                        0 <= k < rest.len() && (#[trigger] rest[k]).in_scope && rest[k].terminal;
                    assert(events[k + 1].in_scope && events[k + 1].terminal);
                }
                if ends_stream(events) {
                    let k = choose|k: int|
                        0 <= k < events.len() && (#[trigger] events[k]).in_scope
                            && events[k].terminal;
                    assert(rest[k - 1].in_scope && rest[k - 1].terminal);
                }
            }
            if first.in_scope {
                let tail = sent_live(delivered_to(rest, first.seq), received);
                assert(seq![first.seq] + (delivered(rest) + tail) =~= (seq![first.seq]
                    + delivered(rest)) + tail);
            }
        } else {
            assert(ends_stream(events)) by {
                assert(events[0].in_scope && events[0].terminal);
            }
        }
    }
}

/// A live stream sends no event twice and none that a replay already delivered:
/// what it sends carries ever greater sequence ids, all past where it started.
pub proof fn law_no_event_is_sent_twice(last: u64, received: Seq<Received>)
    ensures
        forall|i: int|
            0 <= i < sent_live(last, received).len() ==> #[trigger] sent_live(last, received)[i]
                > last,
        forall|i: int, j: int|
            0 <= i < j < sent_live(last, received).len() ==> #[trigger] sent_live(last, received)[i]
                < #[trigger] sent_live(last, received)[j],
    decreases received.len(),
{
    let all = sent_live(last, received);
    if received.len() > 0 {
        let rest = received.drop_first();
        match received[0] {
            Received::Event { seq, in_scope, terminal } => {
                if seq <= last {
                    law_no_event_is_sent_twice(last, rest);
                    assert(all == sent_live(last, rest));
                } else {
                    law_no_event_is_sent_twice(seq, rest);
                    let tail = sent_live(seq, rest);
                    if !in_scope {
                        assert(all == tail);
                    } else if terminal {
                        assert(all == seq![seq]);
                    } else {
                        assert(all == seq![seq] + tail);
                        assert forall|i: int| 0 <= i < all.len() implies #[trigger] all[i] > last by {
                            if i > 0 {
                                assert(all[i] == tail[i - 1]);
                            }
                        }
                        assert forall|i: int, j: int|
                            0 <= i < j < all.len() implies #[trigger] all[i]
                            < #[trigger] all[j] by {
                            assert(all[j] == tail[j - 1]);
                            if i > 0 {
                                assert(all[i] == tail[i - 1]);
                            }
                        }
                    }
                }
            },
            _ => {
                assert(all.len() == 0);
            },
        }
    }
}

/// What a page of the log asks the store for: the sequence id it starts after and
/// how many rows it may hold. The log can be switched off.
pub fn event_log(logs: bool, after: Option<i64>, limit: Option<i64>) -> (r: Result<
    (i64, i64),
    ApiError,
>)
    ensures
        if logs {
            r == Ok::<(i64, i64), ApiError>(
                (
                    clamped(
                        match after {
                            Some(n) => n,
                            None => 0,
                        },
                        0,
                        i64::MAX,
                    ),
                    clamped(
                        match limit {
                            Some(n) => n,
                            None => 100,
                        },
                        1,
                        500,
                    ),
                ),
            )
        } else {
            r matches Err(e) && e@ == (409u16, LOG_DISABLED@)
        },
{
    if !logs {
        return Err(ApiError::fixed(CONFLICT, LOG_DISABLED));
    }
    let start: i64 = match after {
        Some(n) => n,
        None => 0,
    };
    let size: i64 = match limit {
        Some(n) => n,
        None => 100,
    };
    Ok((clamp(start, 0, i64::MAX), clamp(size, 1, MAX_LOG_PAGE)))
}

/// The refusal of a log that is switched off.
pub const LOG_DISABLED: &'static str =
    "the durable event log is disabled (`[events] log_enabled = false`); only the live              SSE stream at GET /events is available";

/// The cursor a poller sends next: none when the page did not fill, which is how
/// it knows to back off.
pub fn next_after(seqs: &[i64], limit: i64) -> (r: Option<i64>)
    ensures
        r is Some <==> seqs@.len() > 0 && seqs@.len() == limit,
        r matches Some(n) ==> n == seqs@.last(),
{
    if seqs.len() > 0 && limit >= 0 && seqs.len() as u64 == limit as u64 {
        Some(seqs[seqs.len() - 1])
    } else {
        None
    }
}

/// A row of the log as a page shows it.
#[derive(Debug)]
pub struct LoggedEvent {
    pub seq: i64,
    pub body: Json,
}

/// How the log stands.
#[derive(Debug, Clone, Copy, PartialEq, Eq)]
pub struct LogState {
    pub latest_seq: u64,
    /// Events the log holds.
    pub retained: i64,
    /// Events on their way to the log.
    pub pending: u64,
    pub retention_days: u64,
}

/// The cursor after a page of the log: its last sequence id when it filled.
pub open spec fn cursor_after(events: Seq<LoggedEvent>, limit: i64) -> Option<int> {
    if events.len() > 0 && events.len() == limit {
        Some(events.last().seq as int)
    } else {
        None
    }
}

/// A full page says where the next one begins, after its last event; a page that is
/// not full is the last.
pub proof fn law_only_a_full_page_has_a_next(events: Seq<LoggedEvent>, limit: i64)
    ensures
        events.len() > 0 && events.len() == limit ==> cursor_after(events, limit) == Some(
            events[events.len() - 1].seq as int,
        ),
        events.len() == 0 || events.len() != limit ==> cursor_after(events, limit) is None,
{
}

/// A page of the log.
pub open spec fn log_page(events: Seq<LoggedEvent>, limit: i64, log: LogState) -> JsonModel {
    JsonModel::object().put("count"@, JsonModel::integer(events.len() as int)).put(
        "next_after"@,
        JsonModel::int_or_null(cursor_after(events, limit)),
    ).put("latest_seq"@, JsonModel::integer(log.latest_seq as int)).put(
        "retained"@,
        JsonModel::integer(log.retained as int),
    ).put("pending"@, JsonModel::integer(log.pending as int)).put(
        "retention_days"@,
        JsonModel::integer(log.retention_days as int),
    ).put("events"@, JsonModel::Array(Seq::new(events.len(), |i: int| events[i].body@)))
}

/// Each member of a log page holds what it is named after.
pub proof fn law_a_log_page_names_what_it_shows(events: Seq<LoggedEvent>, limit: i64, log: LogState)
    ensures
        ({
            let shown = log_page(events, limit, log);
            &&& shown.get("count"@) == Some(JsonModel::integer(events.len() as int))
            &&& shown.get("next_after"@) == Some(
                JsonModel::int_or_null(cursor_after(events, limit)),
            )
            &&& shown.get("latest_seq"@) == Some(JsonModel::integer(log.latest_seq as int))
            &&& shown.get("retained"@) == Some(JsonModel::integer(log.retained as int))
            &&& shown.get("pending"@) == Some(JsonModel::integer(log.pending as int))
            &&& shown.get("retention_days"@) == Some(JsonModel::integer(log.retention_days as int))
            &&& shown.get("events"@) == Some(
                JsonModel::Array(Seq::new(events.len(), |i: int| events[i].body@)),
            )
        }),
{
    reveal_strlit("count");
    reveal_strlit("next_after");
    reveal_strlit("latest_seq");
    reveal_strlit("retained");
    reveal_strlit("pending");
    reveal_strlit("retention_days");
    reveal_strlit("events");
    assert("next_after"@[0] != "latest_seq"@[0]);
    let m0 = JsonModel::object();
    let v1 = JsonModel::integer(events.len() as int);
    lemma_put(m0, "count"@, v1);
    let m1 = m0.put("count"@, v1);
    let v2 = JsonModel::int_or_null(cursor_after(events, limit));
    lemma_put(m1, "next_after"@, v2);
    let m2 = m1.put("next_after"@, v2);
    let v3 = JsonModel::integer(log.latest_seq as int);
    lemma_put(m2, "latest_seq"@, v3);
    let m3 = m2.put("latest_seq"@, v3);
    let v4 = JsonModel::integer(log.retained as int);
    lemma_put(m3, "retained"@, v4);
    let m4 = m3.put("retained"@, v4);
    let v5 = JsonModel::integer(log.pending as int);
    lemma_put(m4, "pending"@, v5);
    let m5 = m4.put("pending"@, v5);
    let v6 = JsonModel::integer(log.retention_days as int);
    lemma_put(m5, "retention_days"@, v6);
    let m6 = m5.put("retention_days"@, v6);
    let v7 = JsonModel::Array(Seq::new(events.len(), |i: int| events[i].body@));
    lemma_put(m6, "events"@, v7);
}

/// Answers a read of the log.
pub fn event_log_page(events: Vec<LoggedEvent>, limit: i64, log: LogState) -> (r: Json)
    ensures
        r@ == log_page(events@, limit, log),
{
    let mut seqs: Vec<i64> = Vec::new();
    let mut bodies: Vec<Json> = Vec::new();
    let mut i: usize = 0;
    while i < events.len()
        invariant
            i <= events@.len(),
            seqs@.len() == i,
            bodies@.len() == i,
            forall|k: int| 0 <= k < i ==> #[trigger] seqs@[k] == events@[k].seq,
            forall|k: int| 0 <= k < i ==> (#[trigger] bodies@[k])@ == events@[k].body@,
        decreases events@.len() - i,
    {
        seqs.push(events[i].seq);
        bodies.push(events[i].body.copy());
        i += 1;
    }
    assert(models(bodies@) =~= Seq::new(events@.len(), |k: int| events@[k].body@));
    let mut out = Json::object();
    out.set("count", Json::unsigned(events.len() as u64));
    out.set("next_after", Json::optional_int(next_after(&seqs, limit)));
    out.set("latest_seq", Json::unsigned(log.latest_seq));
    out.set("retained", Json::integer(log.retained));
    out.set("pending", Json::unsigned(log.pending));
    out.set("retention_days", Json::unsigned(log.retention_days));
    out.set("events", Json::array(bodies));
    out
}

} // verus!
