//! The guarded dataset delete: preview, echo, yield check, and the export that
//! is written before anything is destroyed.

use vstd::prelude::*;

use crate::clock::{compact_text, write_compact, Instant};
use crate::error::{
    code_of, error_code, ApiError, BAD_REQUEST, CONFLICT, INTERNAL_MESSAGE, INTERNAL_SERVER_ERROR,
    PRECONDITION_REQUIRED,
};
use crate::json::{lemma_put, Json, JsonModel};
use crate::number::{decimal, push_u64};
use crate::text::{begins, chars, owned, same, trim, trimmed};

verus! {

/// Rows the pre-delete export reads per page.
pub const DELETE_EXPORT_PAGE: usize = 500;

/// Directory under the artifacts directory where a deleted dataset's export lands.
pub const DELETED_EXPORT_DIR: &'static str = "deleted-datasets";

/// A dataset's identity as the store resolved it, and its population.
#[derive(Debug, PartialEq)]
pub struct DatasetCounts {
    pub app: String,
    pub dataset: String,
    pub records: u64,
    pub revisions: u64,
}

impl DatasetCounts {
    /// The string a caller must echo.
    pub open spec fn identity(self) -> Seq<char> {
        self.app@ + "/"@ + self.dataset@
    }

    /// What the preview tells the caller.
    pub open spec fn warning(self) -> Seq<char> {
        "this deletes "@ + decimal(self.records as int) + " record(s) and "@ + decimal(
            self.revisions as int,
        ) + " revision(s) permanently. Retry with ?confirm="@ + self.identity()
            + "&expect_records="@ + decimal(self.records as int) + " to proceed."@
    }

    /// The `<app>/<dataset>` string of this dataset.
    pub fn confirmation(&self) -> (r: String)
        ensures
            r@ == self.identity(),
    {
        let mut out = owned(self.app.as_str());
        out.append("/");
        out.append(self.dataset.as_str());
        out
    }
}

/// What an unconfirmed delete answers with.
#[derive(Debug, PartialEq)]
pub struct Preview {
    /// What would be destroyed and how to go on, in one sentence.
    pub error: String,
    /// The exact `confirm` to retry with.
    pub confirm: String,
    /// The exact `expect_records` to retry with.
    pub expect_records: u64,
}

/// The preview of deleting a dataset with this population.
fn preview_of(counts: &DatasetCounts) -> (r: Preview)
    ensures
        r.error@ == counts.warning(),
        r.confirm@ == counts.identity(),
        r.expect_records == counts.records,
{
    let confirm = counts.confirmation();
    let mut error = owned("this deletes ");
    push_u64(&mut error, counts.records);
    error.append(" record(s) and ");
    push_u64(&mut error, counts.revisions);
    error.append(" revision(s) permanently. Retry with ?confirm=");
    error.append(confirm.as_str());
    error.append("&expect_records=");
    push_u64(&mut error, counts.records);
    error.append(" to proceed.");
    Preview { error, confirm, expect_records: counts.records }
}

/// Where a delete request stands.
#[derive(Debug, PartialEq)]
pub enum DeleteGate {
    /// A parameter is missing: count, show, destroy nothing.
    Preview(Preview),
    /// The echo does not name this dataset.
    Refused(ApiError),
    /// Export, then delete if the population is still exactly this large.
    Proceed { expect_records: u64 },
}

/// The refusal of a wrong echo. It does not restate the expected string.
pub open spec fn echo_message() -> Seq<char> {
    "confirm must be the exact '<app>/<dataset>' string this DELETE targets — call without ?confirm= to see it and the record count"@
}

/// Where a request with these parameters stands, given the population the store
/// counted for it.
pub open spec fn gate_answer(
    counts: DatasetCounts,
    confirm: Option<&str>,
    expect_records: Option<u64>,
    gate: DeleteGate,
) -> bool {
    match gate {
        DeleteGate::Preview(p) => {
            &&& confirm is None || expect_records is None
            &&& p.error@ == counts.warning()
            &&& p.confirm@ == counts.identity()
            &&& p.expect_records == counts.records
        },
        DeleteGate::Refused(e) => {
            &&& expect_records is Some
            &&& confirm matches Some(c) && trimmed(c@) != counts.identity()
            &&& e@ == (400u16, echo_message())
        },
        DeleteGate::Proceed { expect_records: n } => {
            &&& expect_records == Some(n)
            &&& confirm matches Some(c) && trimmed(c@) == counts.identity()
        },
    }
}

/// A delete goes ahead exactly where the request echoes the app and the dataset,
/// joined by a slash, and says how many records it expects; it is shown what it would
/// delete where either is missing, and refused where the echo is another.
pub proof fn law_a_delete_takes_an_exact_echo(
    counts: DatasetCounts,
    confirm: Option<&str>,
    expect_records: Option<u64>,
    gate: DeleteGate,
)
    requires
        gate_answer(counts, confirm, expect_records, gate),
    ensures
        gate is Preview <==> confirm is None || expect_records is None,
        gate is Proceed <==> expect_records is Some && confirm is Some && trimmed(confirm->0@)
            == counts.app@ + "/"@ + counts.dataset@,
        gate is Refused <==> expect_records is Some && confirm is Some && trimmed(confirm->0@)
            != counts.app@ + "/"@ + counts.dataset@,
        gate matches DeleteGate::Proceed { expect_records: n } ==> expect_records == Some(n),
        gate matches DeleteGate::Refused(e) ==> e@ == (400u16, echo_message()),
        gate matches DeleteGate::Preview(p) ==> p.confirm@ == counts.app@ + "/"@ + counts.dataset@
            && p.expect_records == counts.records,
{
}

/// What a delete request does, given the population the store counted for it.
pub fn delete_gate(
    counts: &DatasetCounts,
    confirm: Option<&str>,
    expect_records: Option<u64>,
) -> (r: DeleteGate)
    ensures
        gate_answer(*counts, confirm, expect_records, r),
{
    let expected = counts.confirmation();
    match (confirm, expect_records) {
        (Some(c), Some(n)) => {
            if same(trim(c).as_str(), expected.as_str()) {
                DeleteGate::Proceed { expect_records: n }
            } else {
                DeleteGate::Refused(
                    ApiError::fixed(
                        BAD_REQUEST,
                        "confirm must be the exact '<app>/<dataset>' string this DELETE targets — call without ?confirm= to see it and the record count",
                    ),
                )
            }
        },
        _ => DeleteGate::Preview(preview_of(counts)),
    }
}

/// What the deleting transaction reported.
#[derive(Debug, PartialEq)]
pub enum DeleteVerdict {
    Deleted(DatasetCounts),
    /// The population is not the one that was confirmed; nothing was deleted.
    YieldChanged { expected: u64, found: DatasetCounts },
    /// The transaction only counted.
    Preview(DatasetCounts),
}

/// The refusal of a population that moved.
pub open spec fn moved_message(expected: u64, found: u64) -> Seq<char> {
    "the dataset moved since the preview: you confirmed "@ + decimal(expected as int)
        + " record(s), it now holds "@ + decimal(found as int)
        + ". Nothing was deleted — re-preview and retry."@
}

/// The warning counts the records before the revisions and asks for the records by
/// number; the refusal of a dataset that moved names what was confirmed before what is
/// there.
pub proof fn law_delete_messages_state_their_counts_in_order(
    counts: DatasetCounts,
    expected: u64,
    found: u64,
)
    ensures
        begins(
            counts.warning(),
            "this deletes "@ + decimal(counts.records as int) + " record(s) and "@ + decimal(
                counts.revisions as int,
            ) + " revision(s) permanently"@,
        ),
        begins(
            moved_message(expected, found),
            "the dataset moved since the preview: you confirmed "@ + decimal(expected as int)
                + " record(s), it now holds "@ + decimal(found as int),
        ),
{
    reveal_strlit(" revision(s) permanently");
    reveal_strlit(" revision(s) permanently. Retry with ?confirm=");
    let shorter = " revision(s) permanently"@;
    let longer = " revision(s) permanently. Retry with ?confirm="@;
    let a = "this deletes "@ + decimal(counts.records as int) + " record(s) and "@ + decimal(
        counts.revisions as int,
    );
    assert(longer.take(shorter.len() as int) =~= shorter);
    assert(counts.warning().take((a + shorter).len() as int) =~= a + shorter);
    let b = "the dataset moved since the preview: you confirmed "@ + decimal(expected as int)
        + " record(s), it now holds "@ + decimal(found as int);
    assert(moved_message(expected, found).take(b.len() as int) =~= b);
}

/// What the caller of a confirmed delete is told: the receipt of what was
/// actually destroyed, or why nothing was.
pub fn delete_outcome(verdict: DeleteVerdict) -> (r: Result<DatasetCounts, ApiError>)
    ensures
        match verdict {
            DeleteVerdict::Deleted(done) => r == Ok::<DatasetCounts, ApiError>(done),
            DeleteVerdict::YieldChanged { expected, found } => r matches Err(e) && e@ == (
                409u16,
                moved_message(expected, found.records),
            ),
            DeleteVerdict::Preview(_) => r matches Err(e) && e@ == (500u16, INTERNAL_MESSAGE@),
        },
{
    match verdict {
        DeleteVerdict::Deleted(done) => Ok(done),
        DeleteVerdict::YieldChanged { expected, found } => {
            let mut m = owned("the dataset moved since the preview: you confirmed ");
            push_u64(&mut m, expected);
            m.append(" record(s), it now holds ");
            push_u64(&mut m, found.records);
            m.append(". Nothing was deleted — re-preview and retry.");
            Err(ApiError::new(CONFLICT, m))
        },
        DeleteVerdict::Preview(_) => Err(ApiError::fixed(INTERNAL_SERVER_ERROR, INTERNAL_MESSAGE)),
    }
}

/// The refusal of a delete whose safety net could not be written.
pub fn export_failed() -> (r: ApiError)
    ensures
        r@ == (
            500u16,
            "the pre-delete export could not be written, so nothing was deleted"@,
        ),
{
    ApiError::fixed(
        INTERNAL_SERVER_ERROR,
        "the pre-delete export could not be written, so nothing was deleted",
    )
}

/// The body of the answer to an unconfirmed delete. It says that it is a preview,
/// so that a saved copy can never pass for proof of a deletion.
pub fn preview_body(counts: &DatasetCounts, as_of: &str) -> (r: Json)
    ensures
        r@ == JsonModel::object().put("preview"@, JsonModel::Bool(true)).put(
            "code"@,
            JsonModel::Text(code_of(428)),
        ).put("error"@, JsonModel::Text(counts.warning())).put(
            "app"@,
            JsonModel::Text(counts.app@),
        ).put("dataset"@, JsonModel::Text(counts.dataset@)).put(
            "records"@,
            JsonModel::integer(counts.records as int),
        ).put("revisions"@, JsonModel::integer(counts.revisions as int)).put(
            "expect_records"@,
            JsonModel::integer(counts.records as int),
        ).put("confirm"@, JsonModel::Text(counts.identity())).put(
            "as_of"@,
            JsonModel::Text(as_of@),
        ),
{
    let preview = preview_of(counts);
    let mut out = Json::object();
    out.set("preview", Json::Bool(true));
    out.set("code", Json::text(error_code(PRECONDITION_REQUIRED)));
    out.set("error", Json::text(preview.error.as_str()));
    out.set("app", Json::text(counts.app.as_str()));
    out.set("dataset", Json::text(counts.dataset.as_str()));
    out.set("records", Json::unsigned(counts.records));
    out.set("revisions", Json::unsigned(counts.revisions));
    out.set("expect_records", Json::unsigned(preview.expect_records));
    out.set("confirm", Json::text(preview.confirm.as_str()));
    out.set("as_of", Json::text(as_of));
    out
}

/// The order to delete: how many records must still be there, and the export that
/// holds them.
#[derive(Debug, PartialEq)]
pub struct DeleteOrder {
    pub expect_records: u64,
    pub export: String,
}

/// The answer to a confirmed request once its export was tried.
pub open spec fn order_answer(
    expect_records: u64,
    export: Option<String>,
    order: Result<DeleteOrder, ApiError>,
) -> bool {
    match export {
        Some(path) => order matches Ok(o) && o.expect_records == expect_records && o.export == path,
        None => order matches Err(e) && e@ == (
            500u16,
            "the pre-delete export could not be written, so nothing was deleted"@,
        ),
    }
}

/// Gives the order to delete once the export lies on disk. Without the export
/// there is no order: nothing is destroyed whose copy was not written.
pub fn delete_order(expect_records: u64, export: Option<String>) -> (r: Result<
    DeleteOrder,
    ApiError,
>)
    ensures
        order_answer(expect_records, export, r),
{
    match export {
        Some(path) => Ok(DeleteOrder { expect_records, export: path }),
        None => Err(export_failed()),
    }
}

/// Nothing is deleted that was not exported: an order is given exactly where the
/// export was written, and names it.
pub proof fn law_an_order_waits_for_its_export(
    expect_records: u64,
    export: Option<String>,
    order: Result<DeleteOrder, ApiError>,
)
    requires
        order_answer(expect_records, export, order),
    ensures
        order is Ok <==> export is Some,
        order matches Ok(o) ==> export == Some(o.export) && o.expect_records == expect_records,
        order matches Err(e) ==> e.status == 500,
{
}

/// The receipt of a delete: what was actually destroyed, and where its copy is.
pub fn delete_receipt(done: &DatasetCounts, export: &str, as_of: &str) -> (r: Json)
    ensures
        r@ == JsonModel::object().put("preview"@, JsonModel::Bool(false)).put(
            "app"@,
            JsonModel::Text(done.app@),
        ).put("dataset"@, JsonModel::Text(done.dataset@)).put(
            "deleted"@,
            JsonModel::integer(done.records as int),
        ).put("records"@, JsonModel::integer(done.records as int)).put(
            "revisions"@,
            JsonModel::integer(done.revisions as int),
        ).put("export"@, JsonModel::Text(export@)).put("as_of"@, JsonModel::Text(as_of@)),
{
    let mut out = Json::object();
    out.set("preview", Json::Bool(false));
    out.set("app", Json::text(done.app.as_str()));
    out.set("dataset", Json::text(done.dataset.as_str()));
    out.set("deleted", Json::unsigned(done.records));
    out.set("records", Json::unsigned(done.records));
    out.set("revisions", Json::unsigned(done.revisions));
    out.set("export", Json::text(export));
    out.set("as_of", Json::text(as_of));
    out
}

/// The first line of a pre-delete export: what the file is and what it claims to
/// hold.
pub fn export_header(app: &str, dataset: &str, exported_at: &str, records_expected: u64) -> (r:
    Json)
    ensures
        r@ == JsonModel::object().put("kind"@, JsonModel::Text("header"@)).put(
            "export"@,
            JsonModel::Text("pumper.dataset.pre-delete"@),
        ).put("version"@, JsonModel::integer(1)).put("app"@, JsonModel::Text(app@)).put(
            "dataset"@,
            JsonModel::Text(dataset@),
        ).put("exported_at"@, JsonModel::Text(exported_at@)).put(
            "records_expected"@,
            JsonModel::integer(records_expected as int),
        ),
{
    let mut out = Json::object();
    out.set("kind", Json::text("header"));
    out.set("export", Json::text("pumper.dataset.pre-delete"));
    out.set("version", Json::integer(1));
    out.set("app", Json::text(app));
    out.set("dataset", Json::text(dataset));
    out.set("exported_at", Json::text(exported_at));
    out.set("records_expected", Json::unsigned(records_expected));
    out
}

/// What a line of a pre-delete export holds.
#[derive(Debug, Clone, Copy, PartialEq, Eq, Structural)]
pub enum LineKind {
    Record,
    Revision,
}

impl LineKind {
    /// The kind's name.
    pub open spec fn text(self) -> Seq<char> {
        match self {
            LineKind::Record => "record"@,
            LineKind::Revision => "revision"@,
        }
    }
}

/// A row as its export line holds it, told apart by its kind. A row that is no
/// object has no room for the kind and stays as it is.
pub open spec fn tagged(row: JsonModel, kind: LineKind) -> JsonModel {
    row.put("kind"@, JsonModel::Text(kind.text()))
}

/// The export line of a row.
fn export_line(row: &Json, kind: LineKind) -> (r: Json)
    ensures
        r@ == tagged(row@, kind),
{
    let mut line = row.copy();
    line.set(
        "kind",
        Json::text(
            match kind {
                LineKind::Record => "record",
                LineKind::Revision => "revision",
            },
        ),
    );
    line
}

/// A line of the export is its row, marked with what it is.
pub proof fn law_an_export_line_is_its_row(row: JsonModel, kind: LineKind, field: Seq<char>)
    requires
        row is Object,
    ensures
        tagged(row, LineKind::Record).get("kind"@) == Some(JsonModel::Text("record"@)),
        tagged(row, LineKind::Revision).get("kind"@) == Some(JsonModel::Text("revision"@)),
        field != "kind"@ ==> tagged(row, kind).get(field) == row.get(field),
{
    lemma_put(row, "kind"@, JsonModel::Text(LineKind::Record.text()));
    lemma_put(row, "kind"@, JsonModel::Text(LineKind::Revision.text()));
}

/// A record as the store hands it to the export.
#[derive(Debug, PartialEq)]
pub struct RecordRow {
    pub row: Json,
    pub updated_at: String,
    pub key: String,
}

/// A revision as the store hands it to the export.
#[derive(Debug, PartialEq)]
pub struct RevisionRow {
    pub row: Json,
    pub key: String,
    pub revision: i64,
}

/// What a pre-delete export reads next.
#[derive(Debug, PartialEq)]
pub enum ExportStage {
    /// The page of records behind this time and key, or the first one.
    Records(Option<(String, String)>),
    /// The page of revisions behind this key and number, or the first one.
    Revisions(Option<(String, i64)>),
    /// Nothing: every row is written.
    Complete,
}

/// The lines of a page of records, and what is read after it: the page behind its
/// last row while pages come back full, then the revisions from their start.
pub fn export_record_page(page: &[RecordRow]) -> (r: (Vec<Json>, ExportStage))
    ensures
        r.0@.len() == page@.len(),
        forall|i: int|
            0 <= i < page@.len() ==> (#[trigger] r.0@[i])@ == tagged(
                page@[i].row@,
                LineKind::Record,
            ),
        match r.1 {
            ExportStage::Records(Some(after)) => page@.len() == 500 && after.0@
                == page@.last().updated_at@ && after.1@ == page@.last().key@,
            ExportStage::Revisions(None) => page@.len() != 500,
            _ => false,
        },
{
    let mut lines: Vec<Json> = Vec::new();
    let mut i: usize = 0;
    while i < page.len()
        invariant
            i <= page@.len(),
            lines@.len() == i,
            forall|k: int|
                0 <= k < i ==> (#[trigger] lines@[k])@ == tagged(page@[k].row@, LineKind::Record),
        decreases page@.len() - i,
    {
        lines.push(export_line(&page[i].row, LineKind::Record));
        i += 1;
    }
    if page.len() == DELETE_EXPORT_PAGE {
        let last = &page[page.len() - 1];
        let after = (owned(last.updated_at.as_str()), owned(last.key.as_str()));
        (lines, ExportStage::Records(Some(after)))
    } else {
        (lines, ExportStage::Revisions(None))
    }
}

/// The lines of a page of revisions, and what is read after it: the page behind
/// its last row while pages come back full, then nothing.
pub fn export_revision_page(page: &[RevisionRow]) -> (r: (Vec<Json>, ExportStage))
    ensures
        r.0@.len() == page@.len(),
        forall|i: int|
            0 <= i < page@.len() ==> (#[trigger] r.0@[i])@ == tagged(
                page@[i].row@,
                LineKind::Revision,
            ),
        match r.1 {
            ExportStage::Revisions(Some(after)) => page@.len() == 500 && after.0@
                == page@.last().key@ && after.1 == page@.last().revision,
            ExportStage::Complete => page@.len() != 500,
            _ => false,
        },
{
    let mut lines: Vec<Json> = Vec::new();
    let mut i: usize = 0;
    while i < page.len()
        invariant
            i <= page@.len(),
            lines@.len() == i,
            forall|k: int|
                0 <= k < i ==> (#[trigger] lines@[k])@ == tagged(
                    page@[k].row@,
                    LineKind::Revision,
                ),
        decreases page@.len() - i,
    {
        lines.push(export_line(&page[i].row, LineKind::Revision));
        i += 1;
    }
    if page.len() == DELETE_EXPORT_PAGE {
        let last = &page[page.len() - 1];
        (lines, ExportStage::Revisions(Some((owned(last.key.as_str()), last.revision))))
    } else {
        (lines, ExportStage::Complete)
    }
}

/// The lines of a page.
pub open spec fn page_lines(page: Seq<JsonModel>, kind: LineKind) -> Seq<JsonModel> {
    Seq::new(page.len(), |i: int| tagged(page[i], kind))
}

/// The lines written by going from page to page over a store that holds `rows` in
/// the order of their positions and hands out at most 500 at a time, until a page
/// is not full.
pub open spec fn stage_lines(rows: Seq<JsonModel>, kind: LineKind) -> Seq<JsonModel>
    decreases rows.len(),
{
    if rows.len() < 500 {
        page_lines(rows, kind)
    } else {
        page_lines(rows.take(500), kind) + stage_lines(rows.skip(500), kind)
    }
}

/// The export holds every record and then every revision, each once and in order,
/// however many pages they fill.
pub proof fn law_the_export_holds_every_row(records: Seq<JsonModel>, revisions: Seq<JsonModel>)
    ensures
        stage_lines(records, LineKind::Record) + stage_lines(revisions, LineKind::Revision)
            == page_lines(records, LineKind::Record) + page_lines(revisions, LineKind::Revision),
{
    lemma_stage_lines(records, LineKind::Record);
    lemma_stage_lines(revisions, LineKind::Revision);
}

proof fn lemma_stage_lines(rows: Seq<JsonModel>, kind: LineKind)
    ensures
        stage_lines(rows, kind) == page_lines(rows, kind),
    decreases rows.len(),
{
    if rows.len() >= 500 {
        lemma_stage_lines(rows.skip(500), kind);
        assert(page_lines(rows.take(500), kind) + page_lines(rows.skip(500), kind) =~= page_lines(
            rows,
            kind,
        ));
    }
}

/// Nothing is destroyed on a first call, on a wrong echo or without an export: an
/// order to delete comes only from a confirmed request whose export was written,
/// and it carries the population that the caller confirmed.
pub proof fn law_a_delete_order_is_confirmed_and_exported(
    counts: DatasetCounts,
    confirm: Option<&str>,
    expect_records: Option<u64>,
    gate: DeleteGate,
    export: Option<String>,
    order: Result<DeleteOrder, ApiError>,
    n: u64,
)
    requires
        gate_answer(counts, confirm, expect_records, gate),
        gate == (DeleteGate::Proceed { expect_records: n }),
        order_answer(n, export, order),
        order is Ok,
    ensures
        confirm matches Some(c) && trimmed(c@) == counts.identity(),
        expect_records == Some(order->Ok_0.expect_records),
        export == Some(order->Ok_0.export),
{
}

/// Whether `c` may stand in a file name this service composes.
pub open spec fn is_safe(c: char) -> bool {
    'a' <= c <= 'z' || 'A' <= c <= 'Z' || '0' <= c <= '9' || c == '-' || c == '_'
}

/// The single safe file-name component an untrusted name maps to.
pub open spec fn component(raw: Seq<char>) -> Seq<char> {
    let short = raw.take(
        if raw.len() < 64 {
            raw.len() as int
        } else {
            64
        },
    );
    if short.len() == 0 {
        "_"@
    } else {
        short.map_values(
            |c: char|
                if is_safe(c) {
                    c
                } else {
                    '_'
                },
        )
    }
}

/// Maps one untrusted name onto a single safe file-name component: every
/// character outside `[A-Za-z0-9_-]` becomes `_`, an empty name becomes `_`, and
/// the result is at most 64 characters long.
pub fn file_component(raw: &str) -> (r: String)
    ensures
        r@ == component(raw@),
{
    let cs = chars(raw);
    let n: usize = if cs.len() < 64 {
        cs.len()
    } else {
        64
    };
    if n == 0 {
        return owned("_");
    }
    let mut out = String::new();
    let mut i: usize = 0;
    while i < n
        invariant
            i <= n <= cs@.len(),
            out@.len() == i,
            forall|k: int|
                0 <= k < i ==> #[trigger] out@[k] == if is_safe(cs@[k]) {
                    cs@[k]
                } else {
                    '_'
                },
        decreases n - i,
    {
        let c = cs[i];
        if ('a' <= c && c <= 'z') || ('A' <= c && c <= 'Z') || ('0' <= c && c <= '9') || c == '-'
            || c == '_' {
            out.push(c);
        } else {
            out.push('_');
        }
        i += 1;
    }
    assert(out@ =~= component(raw@));
    out
}

/// A file name keeps what is safe of a name's first characters, each in its place,
/// and puts an underscore where a character is not.
pub proof fn law_component_keeps_places(raw: Seq<char>, i: int)
    requires
        0 <= i < raw.len(),
        i < 64,
    ensures
        component(raw).len() == if raw.len() < 64 {
            raw.len() as int
        } else {
            64
        },
        component(raw)[i] == raw[i] || component(raw)[i] == '_',
        'a' <= raw[i] <= 'z' || 'A' <= raw[i] <= 'Z' || '0' <= raw[i] <= '9' || raw[i] == '-'
            || raw[i] == '_' ==> component(raw)[i] == raw[i],
        raw[i] == '/' || raw[i] == '\\' || raw[i] == '.' || raw[i] == ':' ==> component(raw)[i] == '_',
{
}

/// The file the pre-delete export is written to.
pub fn export_file_name(app: &str, dataset: &str, now: Instant) -> (r: String)
    ensures
        r@ == component(app@) + "__"@ + component(dataset@) + "__"@ + compact_text(now@.0, now@.1)
            + ".ndjson"@,
{
    let mut out = file_component(app);
    out.append("__");
    out.append(file_component(dataset).as_str());
    out.append("__");
    out.append(write_compact(now).as_str());
    out.append(".ndjson");
    out
}

/// A composed file-name component is never empty, never long, and holds only
/// characters that neither separate nor traverse.
pub proof fn law_component_is_safe(raw: Seq<char>)
    ensures
        1 <= component(raw).len() <= 64,
        forall|i: int| 0 <= i < component(raw).len() ==> is_safe(#[trigger] component(raw)[i]),
{
    reveal_strlit("_");
}

/// A name that is already safe and short is kept as it is.
pub proof fn law_component_keeps_safe_names(raw: Seq<char>)
    requires
        1 <= raw.len() <= 64,
        forall|i: int| 0 <= i < raw.len() ==> is_safe(#[trigger] raw[i]),
    ensures
        component(raw) == raw,
{
    assert(component(raw) =~= raw);
}

} // verus!
