//! Streamed dataset exports: the framing of each format, the walk over keyset
//! pages, and the terminator that a truncated stream must never carry.

use vstd::prelude::*;

use crate::clock::{rfc3339_text, write_rfc3339, Instant};
use crate::cursor::pair_view;
use crate::datasets::{
    filters_match, filters_ok, filters_refused, parse_removed, read_filters, removed_message,
    text_view, trust_of, trust_owned,
};
use crate::error::{ApiError, BAD_REQUEST};
use crate::filters::{filter_values, JsonFilter};
use crate::text::{chars, owned, same};

verus! {

/// Rows read per page of an export.
pub const EXPORT_BATCH: usize = 1_000;

/// The shapes an export can take.
#[derive(Debug, Clone, Copy, PartialEq, Eq, Structural)]
pub enum ExportFormat {
    /// One streamed JSON array.
    Json,
    /// One JSON object per line.
    Ndjson,
    /// RFC 4180 rows under a fixed header.
    Csv,
}

impl ExportFormat {
    /// The extension's text.
    pub open spec fn extension_text(self) -> Seq<char> {
        match self {
            ExportFormat::Json => "json"@,
            ExportFormat::Ndjson => "ndjson"@,
            ExportFormat::Csv => "csv"@,
        }
    }

    /// File extension of an export.
    pub fn extension(self) -> (r: &'static str)
        ensures
            r@ == self.extension_text(),
    {
        match self {
            ExportFormat::Json => "json",
            ExportFormat::Ndjson => "ndjson",
            ExportFormat::Csv => "csv",
        }
    }

    /// Media type of an export.
    pub fn content_type(self) -> (r: &'static str)
        ensures
            r@ == match self {
                ExportFormat::Json => "application/json"@,
                ExportFormat::Ndjson => "application/x-ndjson"@,
                ExportFormat::Csv => "text/csv; charset=utf-8"@,
            },
    {
        match self {
            ExportFormat::Json => "application/json",
            ExportFormat::Ndjson => "application/x-ndjson",
            ExportFormat::Csv => "text/csv; charset=utf-8",
        }
    }
}

/// A stored record as an export sees it.
#[derive(Debug, PartialEq)]
pub struct Record {
    pub key: String,
    /// The record's data as JSON text.
    pub data: String,
    pub first_seen: Instant,
    pub last_seen: Instant,
    pub updated_at: Instant,
    pub removed_at: Option<Instant>,
}

/// A record together with the attempt to serialize it whole, and the text of its
/// place in the keyset order.
#[derive(Debug, PartialEq)]
pub struct ExportRow {
    pub record: Record,
    pub json: Result<String, String>,
    pub ts: String,
}

/// `s` with every double quote written twice.
pub open spec fn doubled(s: Seq<char>) -> Seq<char>
    decreases s.len(),
{
    if s.len() == 0 {
        Seq::empty()
    } else if s.last() == '"' {
        doubled(s.drop_last()) + seq!['"', '"']
    } else {
        doubled(s.drop_last()).push(s.last())
    }
}

/// A quoted CSV field.
pub open spec fn quoted(s: Seq<char>) -> Seq<char> {
    seq!['"'] + doubled(s) + seq!['"']
}

/// The text of an instant in a CSV column; an absent one is an empty column.
pub open spec fn instant_column(i: Option<Instant>) -> Seq<char> {
    match i {
        Some(x) => rfc3339_text(x@.0, x@.1),
        None => Seq::empty(),
    }
}

/// One CSV row: fixed columns, key and data quoted.
pub open spec fn csv_line(r: Record) -> Seq<char> {
    quoted(r.key@) + seq![','] + rfc3339_text(r.first_seen@.0, r.first_seen@.1) + seq![',']
        + rfc3339_text(r.last_seen@.0, r.last_seen@.1) + seq![','] + rfc3339_text(
        r.updated_at@.0,
        r.updated_at@.1,
    ) + seq![','] + instant_column(r.removed_at) + seq![','] + quoted(r.data@) + seq!['\n']
}

/// Whether a quoted field is still open after `text`.
pub open spec fn inside(text: Seq<char>) -> bool
    decreases text.len(),
{
    if text.len() == 0 {
        false
    } else {
        inside(text.drop_last()) != (text.last() == '"')
    }
}

/// The columns of a CSV line: its text split at the commas outside quotes.
pub open spec fn columns(text: Seq<char>) -> Seq<Seq<char>>
    decreases text.len(),
{
    if text.len() == 0 {
        seq![Seq::empty()]
    } else {
        let rest = columns(text.drop_last());
        if text.last() == ',' && !inside(text.drop_last()) {
            rest.push(Seq::empty())
        } else {
            rest.drop_last().push(rest.last().push(text.last()))
        }
    }
}

/// Whether a text can stand in a CSV column without quotes.
pub open spec fn plain(text: Seq<char>) -> bool {
    forall|i: int| 0 <= i < text.len() ==> #[trigger] text[i] != ',' && text[i] != '"'
}

spec fn lengthened(cols: Seq<Seq<char>>, t: Seq<char>) -> Seq<Seq<char>> {
    cols.drop_last().push(cols.last() + t)
}

proof fn lemma_columns_some(text: Seq<char>)
    ensures
        columns(text).len() > 0,
    decreases text.len(),
{
    if text.len() > 0 {
        lemma_columns_some(text.drop_last());
    }
}

proof fn lemma_lengthen(cols: Seq<Seq<char>>, t: Seq<char>, c: char)
    requires
        cols.len() > 0,
    ensures
        ({
            let l = lengthened(cols, t);
            l.drop_last().push(l.last().push(c)) == lengthened(cols, t.push(c))
        }),
        lengthened(cols, Seq::empty()) == cols,
{
    let l = lengthened(cols, t);
    assert(l.last().push(c) =~= cols.last() + t.push(c));
    assert(l.drop_last() =~= cols.drop_last());
    assert(cols.last() + Seq::<char>::empty() =~= cols.last());
    assert(lengthened(cols, Seq::empty()) =~= cols);
}

proof fn lemma_plain_column(s: Seq<char>, t: Seq<char>)
    requires
        plain(t),
    ensures
        inside(s + t) == inside(s),
        columns(s + t) == lengthened(columns(s), t),
    decreases t.len(),
{
    lemma_columns_some(s);
    if t.len() == 0 {
        assert(s + t =~= s);
        assert(t =~= Seq::empty());
        lemma_lengthen(columns(s), t, ' ');
    } else {
        let u = t.drop_last();
        assert(forall|i: int| 0 <= i < u.len() ==> #[trigger] u[i] == t[i]);
        lemma_plain_column(s, u);
        assert((s + t).drop_last() =~= s + u);
        assert((s + t).last() == t.last());
        lemma_lengthen(columns(s), u, t.last());
        assert(u.push(t.last()) =~= t);
    }
}

proof fn lemma_doubled_column(s: Seq<char>, x: Seq<char>)
    requires
        inside(s),
    ensures
        inside(s + doubled(x)),
        columns(s + doubled(x)) == lengthened(columns(s), doubled(x)),
    decreases x.len(),
{
    lemma_columns_some(s);
    if x.len() == 0 {
        assert(s + doubled(x) =~= s);
        lemma_lengthen(columns(s), doubled(x), ' ');
    } else {
        let d = doubled(x.drop_last());
        lemma_doubled_column(s, x.drop_last());
        lemma_lengthen(columns(s), d, x.last());
        let one = d.push(x.last());
        assert((s + one).drop_last() =~= s + d);
        assert((s + one).last() == x.last());
        assert(inside(s + one) == (x.last() != '"'));
        assert(columns(s + one) == lengthened(columns(s), one));
        if x.last() == '"' {
            assert(doubled(x) =~= one.push('"'));
            assert((s + doubled(x)).drop_last() =~= s + one);
            assert((s + doubled(x)).last() == '"');
            lemma_lengthen(columns(s), one, '"');
        } else {
            assert(doubled(x) =~= one);
        }
    }
}

proof fn lemma_quoted_column(s: Seq<char>, x: Seq<char>)
    requires
        !inside(s),
    ensures
        !inside(s + quoted(x)),
        columns(s + quoted(x)) == lengthened(columns(s), quoted(x)),
{
    lemma_columns_some(s);
    let open = s.push('"');
    assert(open.drop_last() =~= s);
    lemma_lengthen(columns(s), Seq::empty(), '"');
    lemma_columns_some(open);
    lemma_doubled_column(open, x);
    let filled = open + doubled(x);
    assert((s + quoted(x)).drop_last() =~= filled);
    assert((s + quoted(x)).last() == '"');
    let q1 = Seq::<char>::empty().push('"');
    let q2 = q1 + doubled(x);
    assert(columns(open) =~= lengthened(columns(s), q1));
    assert(columns(filled) =~= lengthened(columns(s), q2)) by {
        assert((columns(s).last() + q1) + doubled(x) =~= columns(s).last() + q2);
    }
    lemma_lengthen(columns(s), q2, '"');
    assert(q2.push('"') =~= quoted(x));
}

proof fn lemma_next_column(s: Seq<char>)
    requires
        !inside(s),
    ensures
        !inside(s + seq![',']),
        columns(s + seq![',']) == columns(s).push(Seq::empty()),
{
    assert((s + seq![',']).drop_last() =~= s);
    assert((s + seq![',']).last() == ',');
}

proof fn lemma_fill(cols: Seq<Seq<char>>, t: Seq<char>)
    ensures
        lengthened(cols.push(Seq::empty()), t) == cols.push(t),
{
    let l = cols.push(Seq::empty());
    assert(l.drop_last() =~= cols);
    assert(l.last() + t =~= t);
}

/// Every column of a CSV row holds the field its header names: the key, the three
/// instants in the header's order, the removal or nothing, and the data. The row
/// ends the line.
pub proof fn law_each_csv_column_holds_what_its_header_names(r: Record)
    requires
        plain(rfc3339_text(r.first_seen@.0, r.first_seen@.1)),
        plain(rfc3339_text(r.last_seen@.0, r.last_seen@.1)),
        plain(rfc3339_text(r.updated_at@.0, r.updated_at@.1)),
        r.removed_at matches Some(at) ==> plain(rfc3339_text(at@.0, at@.1)),
    ensures
        opening_text(ExportFormat::Csv).last() == '\n',
        columns(opening_text(ExportFormat::Csv).drop_last()) == seq![
            "key"@,
            "first_seen"@,
            "last_seen"@,
            "updated_at"@,
            "removed_at"@,
            "data"@,
        ],
        csv_line(r).last() == '\n',
        columns(csv_line(r).drop_last()) == seq![
            quoted(r.key@),
            rfc3339_text(r.first_seen@.0, r.first_seen@.1),
            rfc3339_text(r.last_seen@.0, r.last_seen@.1),
            rfc3339_text(r.updated_at@.0, r.updated_at@.1),
            match r.removed_at {
                Some(at) => rfc3339_text(at@.0, at@.1),
                None => Seq::empty(),
            },
            quoted(r.data@),
        ],
{
    lemma_header();
    let none = Seq::<char>::empty();
    let first = rfc3339_text(r.first_seen@.0, r.first_seen@.1);
    let last = rfc3339_text(r.last_seen@.0, r.last_seen@.1);
    let updated = rfc3339_text(r.updated_at@.0, r.updated_at@.1);
    let removed = instant_column(r.removed_at);
    assert(plain(removed));
    let comma = seq![','];
    let c0 = none + quoted(r.key@);
    lemma_quoted_column(none, r.key@);
    lemma_fill(Seq::empty(), quoted(r.key@));
    assert(columns(none) =~= Seq::<Seq<char>>::empty().push(none));
    let c1 = c0 + comma + first;
    lemma_next_column(c0);
    lemma_plain_column(c0 + comma, first);
    lemma_fill(columns(c0), first);
    let c2 = c1 + comma + last;
    lemma_next_column(c1);
    lemma_plain_column(c1 + comma, last);
    lemma_fill(columns(c1), last);
    let c3 = c2 + comma + updated;
    lemma_next_column(c2);
    lemma_plain_column(c2 + comma, updated);
    lemma_fill(columns(c2), updated);
    let c4 = c3 + comma + removed;
    lemma_next_column(c3);
    lemma_plain_column(c3 + comma, removed);
    lemma_fill(columns(c3), removed);
    let c5 = c4 + comma + quoted(r.data@);
    lemma_next_column(c4);
    lemma_quoted_column(c4 + comma, r.data@);
    lemma_fill(columns(c4), quoted(r.data@));
    assert(csv_line(r).drop_last() =~= c5);
    assert(csv_line(r).last() == '\n');
    assert(columns(c5) =~= seq![
        quoted(r.key@),
        first,
        last,
        updated,
        removed,
        quoted(r.data@),
    ]);
}

proof fn lemma_header()
    ensures
        opening_text(ExportFormat::Csv).last() == '\n',
        columns(opening_text(ExportFormat::Csv).drop_last()) == seq![
            "key"@,
            "first_seen"@,
            "last_seen"@,
            "updated_at"@,
            "removed_at"@,
            "data"@,
        ],
{
    reveal_strlit("key,first_seen,last_seen,updated_at,removed_at,data\n");
    reveal_strlit("key");
    reveal_strlit("first_seen");
    reveal_strlit("last_seen");
    reveal_strlit("updated_at");
    reveal_strlit("removed_at");
    reveal_strlit("data");
    let none = Seq::<char>::empty();
    let comma = seq![','];
    let c0 = none + "key"@;
    lemma_plain_column(none, "key"@);
    lemma_fill(Seq::empty(), "key"@);
    assert(columns(none) =~= Seq::<Seq<char>>::empty().push(none));
    let c1 = c0 + comma + "first_seen"@;
    lemma_next_column(c0);
    lemma_plain_column(c0 + comma, "first_seen"@);
    lemma_fill(columns(c0), "first_seen"@);
    let c2 = c1 + comma + "last_seen"@;
    lemma_next_column(c1);
    lemma_plain_column(c1 + comma, "last_seen"@);
    lemma_fill(columns(c1), "last_seen"@);
    let c3 = c2 + comma + "updated_at"@;
    lemma_next_column(c2);
    lemma_plain_column(c2 + comma, "updated_at"@);
    lemma_fill(columns(c2), "updated_at"@);
    let c4 = c3 + comma + "removed_at"@;
    lemma_next_column(c3);
    lemma_plain_column(c3 + comma, "removed_at"@);
    lemma_fill(columns(c3), "removed_at"@);
    let c5 = c4 + comma + "data"@;
    lemma_next_column(c4);
    lemma_plain_column(c4 + comma, "data"@);
    lemma_fill(columns(c4), "data"@);
    assert(opening_text(ExportFormat::Csv).drop_last() =~= c5);
    assert(columns(c5) =~= seq![
        "key"@,
        "first_seen"@,
        "last_seen"@,
        "updated_at"@,
        "removed_at"@,
        "data"@,
    ]);
}

fn push_quoted(out: &mut String, s: &str)
    ensures
        final(out)@ == old(out)@ + quoted(s@),
{
    let ghost before = out@;
    let cs = chars(s);
    out.push('"');
    let mut i: usize = 0;
    while i < cs.len()
        invariant
            i <= cs@.len(),
            out@ =~= before + seq!['"'] + doubled(cs@.take(i as int)),
        decreases cs@.len() - i,
    {
        assert(cs@.take(i + 1).drop_last() =~= cs@.take(i as int));
        if cs[i] == '"' {
            out.push('"');
        }
        out.push(cs[i]);
        i += 1;
    }
    assert(cs@.take(cs@.len() as int) =~= cs@);
    out.push('"');
    assert(out@ =~= before + quoted(s@));
}

/// Appends one CSV row.
pub fn csv_row(out: &mut String, record: &Record)
    ensures
        final(out)@ == old(out)@ + csv_line(*record),
{
    let ghost before = out@;
    push_quoted(out, record.key.as_str());
    out.push(',');
    out.append(write_rfc3339(record.first_seen).as_str());
    out.push(',');
    out.append(write_rfc3339(record.last_seen).as_str());
    out.push(',');
    out.append(write_rfc3339(record.updated_at).as_str());
    out.push(',');
    if let Some(at) = record.removed_at {
        out.append(write_rfc3339(at).as_str());
    }
    out.push(',');
    push_quoted(out, record.data.as_str());
    out.push('\n');
    assert(out@ =~= before + csv_line(*record));
}

/// What a serialized row adds to a chunk.
pub open spec fn json_row_text(format: ExportFormat, line: Seq<char>, first: bool) -> Seq<char> {
    match format {
        ExportFormat::Ndjson => line.push('\n'),
        ExportFormat::Json => if first {
            line
        } else {
            seq![','] + line
        },
        ExportFormat::Csv => Seq::empty(),
    }
}

/// Appends one already-attempted JSON serialization in `format`'s framing and
/// tells whether it failed. A failed row adds nothing, whatever the format. CSV rows
/// are never serialized, so none comes here as a success.
pub fn append_row<E>(
    chunk: &mut String,
    first: &mut bool,
    format: ExportFormat,
    serialized: Result<String, E>,
) -> (failed: bool)
    requires
        format != ExportFormat::Csv || serialized is Err,
    ensures
        failed == serialized is Err,
        match serialized {
            Err(_) => final(chunk)@ == old(chunk)@ && *final(first) == *old(first),
            Ok(line) => {
                &&& final(chunk)@ == old(chunk)@ + json_row_text(format, line@, *old(first))
                &&& *final(first) == (*old(first) && format != ExportFormat::Json)
            },
        },
{
    let ghost before = chunk@;
    let ghost was_first = *first;
    match serialized {
        Err(_) => true,
        Ok(line) => {
            match format {
                ExportFormat::Ndjson => {
                    chunk.append(line.as_str());
                    chunk.push('\n');
                },
                ExportFormat::Json => {
                    if !*first {
                        chunk.push(',');
                    }
                    *first = false;
                    chunk.append(line.as_str());
                },
                ExportFormat::Csv => {},
            }
            assert(chunk@ =~= before + json_row_text(format, line@, was_first));
            false
        },
    }
}

/// What one row adds to a chunk in any format.
pub open spec fn row_text(format: ExportFormat, row: ExportRow, first: bool) -> Seq<char> {
    match format {
        ExportFormat::Csv => csv_line(row.record),
        _ => match row.json {
            Ok(line) => json_row_text(format, line@, first),
            Err(_) => Seq::empty(),
        },
    }
}

/// Whether the next JSON element is still the array's first one after `rows`.
pub open spec fn still_first(format: ExportFormat, rows: Seq<ExportRow>, first: bool) -> bool
    decreases rows.len(),
{
    if rows.len() == 0 {
        first
    } else {
        still_first(format, rows.drop_last(), first) && !(format == ExportFormat::Json
            && rows.last().json is Ok)
    }
}

/// `rows` in `format`'s framing.
pub open spec fn framed(format: ExportFormat, rows: Seq<ExportRow>, first: bool) -> Seq<char>
    decreases rows.len(),
{
    if rows.len() == 0 {
        Seq::empty()
    } else {
        let before = rows.drop_last();
        framed(format, before, first) + row_text(
            format,
            rows.last(),
            still_first(format, before, first),
        )
    }
}

/// How many of `rows` failed to serialize. CSV serializes no row.
pub open spec fn failures(format: ExportFormat, rows: Seq<ExportRow>) -> nat
    decreases rows.len(),
{
    if rows.len() == 0 {
        0
    } else {
        failures(format, rows.drop_last()) + if format != ExportFormat::Csv
            && rows.last().json is Err {
            1nat
        } else {
            0nat
        }
    }
}

proof fn lemma_failures_bounded(format: ExportFormat, rows: Seq<ExportRow>)
    ensures
        failures(format, rows) <= rows.len(),
    decreases rows.len(),
{
    if rows.len() > 0 {
        lemma_failures_bounded(format, rows.drop_last());
    }
}

/// Formats one page of rows, and counts those that failed to serialize: a row
/// that cannot be written is skipped, but never without a trace.
pub fn format_batch(format: ExportFormat, batch: &[ExportRow], first: &mut bool) -> (r: (
    String,
    usize,
))
    ensures
        r.0@ == framed(format, batch@, *old(first)),
        r.1 == failures(format, batch@),
        *final(first) == still_first(format, batch@, *old(first)),
{
    let ghost was_first = *first;
    let mut chunk = String::new();
    let mut failed: usize = 0;
    let mut i: usize = 0;
    while i < batch.len()
        invariant
            i <= batch@.len(),
            failed <= i,
            chunk@ =~= framed(format, batch@.take(i as int), was_first),
            failed == failures(format, batch@.take(i as int)),
            *first == still_first(format, batch@.take(i as int), was_first),
        decreases batch@.len() - i,
    {
        let ghost done = batch@.take(i as int);
        let ghost next = batch@.take(i + 1);
        assert(next.drop_last() =~= done);
        assert(next.last() == batch@[i as int]);
        match format {
            ExportFormat::Csv => {
                csv_row(&mut chunk, &batch[i].record);
            },
            _ => {
                let attempt: Result<String, ()> = match &batch[i].json {
                    Ok(line) => Ok(owned(line.as_str())),
                    Err(_) => Err(()),
                };
                if append_row(&mut chunk, first, format, attempt) {
                    failed += 1;
                }
            },
        }
        i += 1;
    }
    assert(batch@.take(batch@.len() as int) =~= batch@);
    (chunk, failed)
}

/// Whether the closing bracket may be emitted: only for JSON, and only when
/// every page streamed. A truncated export must not look complete.
pub fn export_may_emit_terminator(format: ExportFormat, aborted: bool) -> (r: bool)
    ensures
        r == (format == ExportFormat::Json && !aborted),
{
    match format {
        ExportFormat::Json => !aborted,
        _ => false,
    }
}

/// The query of an export, defaults filled in.
#[derive(Debug, PartialEq)]
pub struct ExportQuery {
    pub format: Option<String>,
    pub trust: String,
    pub removed: String,
}

/// What an export reads and how it frames it.
#[derive(Debug)]
pub struct ExportPlan {
    pub format: ExportFormat,
    pub filters: Vec<JsonFilter>,
    pub trust: Option<String>,
    pub include_removed: bool,
}

/// The format a request names; `json` when it names none.
pub open spec fn format_of(raw: Option<String>) -> Option<ExportFormat> {
    match raw {
        None => Some(ExportFormat::Json),
        Some(s) => if s@ == "json"@ {
            Some(ExportFormat::Json)
        } else if s@ == "ndjson"@ {
            Some(ExportFormat::Ndjson)
        } else if s@ == "csv"@ {
            Some(ExportFormat::Csv)
        } else {
            None
        },
    }
}

/// An export is in the format it names, and in JSON where it names none; each format
/// is named by its extension, and no other name is one.
pub proof fn law_a_format_is_named_by_its_extension(raw: Option<String>, format: ExportFormat)
    ensures
        raw is None ==> format_of(raw) == Some(ExportFormat::Json),
        raw matches Some(s) ==> (format_of(raw) == Some(format) <==> s@ == format.extension_text()),
        ExportFormat::Json.extension_text() == "json"@,
        ExportFormat::Ndjson.extension_text() == "ndjson"@,
        ExportFormat::Csv.extension_text() == "csv"@,
{
    reveal_strlit("json");
    reveal_strlit("ndjson");
    reveal_strlit("csv");
    assert("json"@.len() == 4 && "ndjson"@.len() == 6 && "csv"@.len() == 3);
}

/// The refusal of an unknown format.
pub open spec fn format_message(raw: Seq<char>) -> Seq<char> {
    "unknown format '"@ + raw + "' (json | ndjson | csv)"@
}

/// The trust levels a read can be narrowed to, and `all`.
pub open spec fn is_trust(raw: Seq<char>) -> bool {
    raw == "all"@ || raw == "stable"@ || raw == "provisional"@ || raw == "quarantined"@
}

/// A read is narrowed to one of three levels of trust, or to none.
pub proof fn law_trust_is_one_of_three_or_all(raw: Seq<char>)
    ensures
        is_trust("all"@) && is_trust("stable"@) && is_trust("provisional"@) && is_trust(
            "quarantined"@,
        ),
        is_trust(raw) ==> raw == "all"@ || raw == "stable"@ || raw == "provisional"@ || raw
            == "quarantined"@,
{
}

/// The refusal of an unknown trust level.
pub open spec fn trust_message(raw: Seq<char>) -> Seq<char> {
    "trust '"@ + raw + "' must be 'all', 'stable', 'provisional' or 'quarantined'"@
}

/// Everything an export request gets wrong is refused before the first byte, so
/// that a bad parameter is a clean 400 and not a stream that breaks off.
pub fn export_records(query: &ExportQuery, pairs: &[(String, String)]) -> (r: Result<
    ExportPlan,
    ApiError,
>)
    ensures
        match r {
            Ok(p) => {
                &&& format_of(query.format) == Some(p.format)
                &&& filters_match(p.filters@, filter_values(pairs@))
                &&& is_trust(query.trust@)
                &&& text_view(p.trust) == trust_of(query.trust@)
                &&& query.removed@ == if p.include_removed {
                    "include"@
                } else {
                    "exclude"@
                }
            },
            Err(e) => e.status == 400 && if format_of(query.format) is None {
                e.message@ == format_message(query.format->0@)
            } else if !filters_ok(filter_values(pairs@)) {
                filters_refused(filter_values(pairs@), e.message@)
            } else if !is_trust(query.trust@) {
                e.message@ == trust_message(query.trust@)
            } else {
                query.removed@ != "include"@ && query.removed@ != "exclude"@ && e.message@
                    == removed_message(query.removed@)
            },
        },
{
    let format = match &query.format {
        None => ExportFormat::Json,
        Some(f) => if same(f.as_str(), "json") {
            ExportFormat::Json
        } else if same(f.as_str(), "ndjson") {
            ExportFormat::Ndjson
        } else if same(f.as_str(), "csv") {
            ExportFormat::Csv
        } else {
            let mut m = owned("unknown format '");
            m.append(f.as_str());
            m.append("' (json | ndjson | csv)");
            return Err(ApiError::new(BAD_REQUEST, m));
        },
    };
    let filters = match read_filters(pairs) {
        Ok(v) => v,
        Err(e) => {
            return Err(e);
        },
    };
    let t = query.trust.as_str();
    if !(same(t, "all") || same(t, "stable") || same(t, "provisional") || same(t, "quarantined")) {
        let mut m = owned("trust '");
        m.append(t);
        m.append("' must be 'all', 'stable', 'provisional' or 'quarantined'");
        return Err(ApiError::new(BAD_REQUEST, m));
    }
    match parse_removed(query.removed.as_str()) {
        Ok(include_removed) => Ok(
            ExportPlan { format, filters, trust: trust_owned(t), include_removed },
        ),
        Err(e) => Err(e),
    }
}

/// The download's `content-disposition`.
pub fn disposition(dataset: &str, format: ExportFormat) -> (r: String)
    ensures
        r@ == "attachment; filename=\""@ + dataset@ + "."@ + format.extension_text() + "\""@,
{
    let mut out = owned("attachment; filename=\"");
    out.append(dataset);
    out.append(".");
    out.append(format.extension());
    out.append("\"");
    out
}

/// An export in flight: where it stands in the keyset order, what it has framed,
/// and whether it is over.
#[derive(Debug)]
pub struct ExportWalk {
    pub format: ExportFormat,
    pub after: Option<(String, String)>,
    pub first: bool,
    pub row_failures: usize,
    pub aborted: bool,
    pub finished: bool,
}

/// What an export writes before its first row.
pub open spec fn opening_text(format: ExportFormat) -> Seq<char> {
    match format {
        ExportFormat::Csv => "key,first_seen,last_seen,updated_at,removed_at,data\n"@,
        ExportFormat::Json => "["@,
        ExportFormat::Ndjson => ""@,
    }
}

/// What an export writes after its last row.
pub open spec fn closing_text(format: ExportFormat, aborted: bool) -> Seq<char> {
    if format == ExportFormat::Json && !aborted {
        "]"@
    } else {
        ""@
    }
}

impl ExportWalk {
    /// An export that has read nothing yet.
    pub fn start(format: ExportFormat) -> (r: ExportWalk)
        ensures
            r.format == format,
            r.after is None,
            r.first,
            r.row_failures == 0,
            !r.aborted,
            !r.finished,
    {
        ExportWalk {
            format,
            after: None,
            first: true,
            row_failures: 0,
            aborted: false,
            finished: false,
        }
    }

    /// What the stream begins with.
    pub fn opening(&self) -> (r: &'static str)
        ensures
            r@ == opening_text(self.format),
    {
        match self.format {
            ExportFormat::Csv => "key,first_seen,last_seen,updated_at,removed_at,data\n",
            ExportFormat::Json => "[",
            ExportFormat::Ndjson => "",
        }
    }

    /// Takes in one page and gives back its bytes. The walk goes on exactly
    /// while pages come back full.
    pub fn take_page(&mut self, page: &[ExportRow]) -> (chunk: String)
        requires
            !old(self).finished,
            old(self).row_failures + page@.len() <= usize::MAX,
        ensures
            chunk@ == framed(old(self).format, page@, old(self).first),
            final(self).format == old(self).format,
            final(self).first == still_first(old(self).format, page@, old(self).first),
            final(self).row_failures == old(self).row_failures + failures(
                old(self).format,
                page@,
            ),
            final(self).aborted == old(self).aborted,
            final(self).finished <==> page@.len() < 1_000,
            pair_view(final(self).after) == if page@.len() == 0 {
                pair_view(old(self).after)
            } else {
                Some((page@.last().ts@, page@.last().record.key@))
            },
    {
        proof {
            lemma_failures_bounded(self.format, page@);
        }
        if page.len() > 0 {
            let last = &page[page.len() - 1];
            self.after = Some((owned(last.ts.as_str()), owned(last.record.key.as_str())));
        }
        let mut first = self.first;
        let (chunk, failed) = format_batch(self.format, page, &mut first);
        self.first = first;
        self.row_failures = self.row_failures + failed;
        self.finished = page.len() < EXPORT_BATCH;
        chunk
    }

    /// The store failed in the middle of the export: it ends here, truncated.
    pub fn store_failed(&mut self)
        ensures
            final(self).aborted,
            final(self).finished,
            final(self).format == old(self).format,
            pair_view(final(self).after) == pair_view(old(self).after),
            final(self).first == old(self).first,
            final(self).row_failures == old(self).row_failures,
    {
        self.aborted = true;
        self.finished = true;
    }

    /// What the stream ends with.
    pub fn closing(&self) -> (r: &'static str)
        ensures
            r@ == closing_text(self.format, self.aborted),
    {
        if export_may_emit_terminator(self.format, self.aborted) {
            "]"
        } else {
            ""
        }
    }
}

/// The bytes of consecutive pages, framed one after the other.
pub open spec fn framed_pages(
    format: ExportFormat,
    pages: Seq<Seq<ExportRow>>,
    first: bool,
) -> Seq<char>
    decreases pages.len(),
{
    if pages.len() == 0 {
        Seq::empty()
    } else {
        framed(format, pages[0], first) + framed_pages(
            format,
            pages.drop_first(),
            still_first(format, pages[0], first),
        )
    }
}

/// The rows of consecutive pages.
pub open spec fn all_rows(pages: Seq<Seq<ExportRow>>) -> Seq<ExportRow>
    decreases pages.len(),
{
    if pages.len() == 0 {
        Seq::empty()
    } else {
        pages[0] + all_rows(pages.drop_first())
    }
}

/// Framing two runs of rows one after the other is framing their concatenation.
pub proof fn law_framing_concatenates(
    format: ExportFormat,
    a: Seq<ExportRow>,
    b: Seq<ExportRow>,
    first: bool,
)
    ensures
        framed(format, a + b, first) == framed(format, a, first) + framed(
            format,
            b,
            still_first(format, a, first),
        ),
        still_first(format, a + b, first) == still_first(
            format,
            b,
            still_first(format, a, first),
        ),
        failures(format, a + b) == failures(format, a) + failures(format, b),
    decreases b.len(),
{
    if b.len() == 0 {
        assert(a + b =~= a);
        assert(framed(format, a, first) + Seq::<char>::empty() =~= framed(format, a, first));
    } else {
        assert((a + b).drop_last() =~= a + b.drop_last());
        assert((a + b).last() == b.last());
        law_framing_concatenates(format, a, b.drop_last(), first);
    }
}

/// How the store pages the dataset does not show in the export: the bytes are
/// those of all the rows framed at once.
pub proof fn law_paging_is_invisible(
    format: ExportFormat,
    pages: Seq<Seq<ExportRow>>,
    first: bool,
)
    ensures
        framed_pages(format, pages, first) == framed(format, all_rows(pages), first),
    decreases pages.len(),
{
    if pages.len() > 0 {
        let rest = pages.drop_first();
        law_paging_is_invisible(format, rest, still_first(format, pages[0], first));
        law_framing_concatenates(format, pages[0], all_rows(rest), first);
    }
}

/// Texts with a comma between each two.
pub open spec fn between_commas(lines: Seq<Seq<char>>) -> Seq<char>
    decreases lines.len(),
{
    if lines.len() == 0 {
        Seq::empty()
    } else if lines.len() == 1 {
        lines[0]
    } else {
        between_commas(lines.drop_last()) + seq![','] + lines.last()
    }
}

/// Texts with a line break after each.
pub open spec fn on_lines(lines: Seq<Seq<char>>) -> Seq<char>
    decreases lines.len(),
{
    if lines.len() == 0 {
        Seq::empty()
    } else {
        on_lines(lines.drop_last()) + lines.last() + seq!['\n']
    }
}

/// The serialized texts of the rows that could be serialized, in order.
pub open spec fn written(rows: Seq<ExportRow>) -> Seq<Seq<char>>
    decreases rows.len(),
{
    if rows.len() == 0 {
        Seq::empty()
    } else {
        match rows.last().json {
            Ok(line) => written(rows.drop_last()).push(line@),
            Err(_) => written(rows.drop_last()),
        }
    }
}

/// A JSON export is the rows that could be serialized with a comma between each
/// two, however many failed and wherever they stood; an NDJSON export is those
/// rows, each on its line. Every row is either written or counted as failed, and
/// a CSV export has none that fails.
pub proof fn law_an_export_writes_each_row_or_counts_it(rows: Seq<ExportRow>)
    ensures
        framed(ExportFormat::Json, rows, true) == between_commas(written(rows)),
        framed(ExportFormat::Ndjson, rows, true) == on_lines(written(rows)),
        still_first(ExportFormat::Json, rows, true) <==> written(rows).len() == 0,
        failures(ExportFormat::Json, rows) + written(rows).len() == rows.len(),
        failures(ExportFormat::Ndjson, rows) + written(rows).len() == rows.len(),
        failures(ExportFormat::Csv, rows) == 0,
    decreases rows.len(),
{
    if rows.len() > 0 {
        let rest = rows.drop_last();
        law_an_export_writes_each_row_or_counts_it(rest);
        if let Ok(line) = rows.last().json {
            let more = written(rest).push(line@);
            assert(more.drop_last() =~= written(rest));
            assert(framed(ExportFormat::Json, rows, true) =~= between_commas(more));
            assert(framed(ExportFormat::Ndjson, rows, true) =~= on_lines(more));
        } else {
            assert(framed(ExportFormat::Json, rows, true) =~= between_commas(written(rest)));
            assert(framed(ExportFormat::Ndjson, rows, true) =~= on_lines(written(rest)));
        }
    } else {
        assert(framed(ExportFormat::Json, rows, true) =~= between_commas(written(rows)));
    }
}

/// An aborted export carries no terminator, and neither does a line format; a
/// JSON export carries one exactly when every page streamed.
pub proof fn law_truncation_is_visible(format: ExportFormat, aborted: bool)
    ensures
        aborted ==> closing_text(format, aborted) == ""@,
        closing_text(format, aborted) == "]"@ <==> format == ExportFormat::Json && !aborted,
{
    reveal_strlit("");
    reveal_strlit("]");
    assert(""@.len() != "]"@.len());
}

/// CSV quoting loses nothing: two texts with the same quoted form are the same.
pub proof fn law_csv_quoting_is_lossless(a: Seq<char>, b: Seq<char>)
    requires
        quoted(a) == quoted(b),
    ensures
        a == b,
{
    assert(quoted(a).subrange(1, quoted(a).len() - 1) =~= doubled(a));
    assert(quoted(b).subrange(1, quoted(b).len() - 1) =~= doubled(b));
    lemma_doubled_injective(a, b);
}

proof fn lemma_doubled_injective(a: Seq<char>, b: Seq<char>)
    requires
        doubled(a) == doubled(b),
    ensures
        a == b,
    decreases a.len(),
{
    if a.len() == 0 || b.len() == 0 {
        assert(a.len() > 0 ==> doubled(a).len() > 0);
        assert(b.len() > 0 ==> doubled(b).len() > 0);
        assert(a.len() == 0 ==> doubled(a).len() == 0);
        assert(b.len() == 0 ==> doubled(b).len() == 0);
        assert(a =~= b);
    } else {
        let da = doubled(a.drop_last());
        let db = doubled(b.drop_last());
        assert(doubled(a).last() == a.last());
        assert(doubled(b).last() == b.last());
        if a.last() == '"' {
            assert(doubled(a).take(doubled(a).len() - 2) =~= da);
            assert(doubled(b).take(doubled(b).len() - 2) =~= db);
        } else {
            assert(doubled(a).drop_last() =~= da);
            assert(doubled(b).drop_last() =~= db);
        }
        lemma_doubled_injective(a.drop_last(), b.drop_last());
        assert(a =~= a.drop_last().push(a.last()));
        assert(b =~= b.drop_last().push(b.last()));
    }
}

} // verus!
