//! Browse lists: how a page is asked for and how its two shapes are told apart.

use vstd::prelude::*;

use crate::cursor::{cursor_pair, pair_view, parse_cursor};
use crate::datasets::{clamp, clamped};
use crate::error::{ApiError, NOT_FOUND};
use crate::json::{models, Json, JsonModel};
use crate::text::owned;

verus! {

/// What a list asks its store for.
#[derive(Debug, PartialEq)]
pub struct PagePlan {
    pub limit: i64,
    /// Whether the answer is the paged shape, with a cursor for the next page.
    pub paged: bool,
    pub after: Option<(String, String)>,
}

/// Plans a page. That a cursor is present, even an empty one, asks for the paged
/// shape; a list without a cursor is still capped. A cursor that does not read
/// starts over: these are lists a human browses.
pub fn page_plan(limit: i64, most: i64, cursor: &Option<String>) -> (r: PagePlan)
    requires
        1 <= most,
    ensures
        r.limit == clamped(limit, 1, most),
        r.paged == (*cursor is Some),
        pair_view(r.after) == match *cursor {
            Some(c) => cursor_pair(c@),
            None => None,
        },
{
    let after = match cursor {
        Some(c) => parse_cursor(c.as_str()),
        None => None,
    };
    PagePlan { limit: clamp(limit, 1, most), paged: cursor.is_some(), after }
}

/// A list in the shape that was asked for: the rows under the list's own name, or
/// a page with the cursor of the next one.
pub fn page_answer(name: &str, rows: Vec<Json>, paged: bool, next_cursor: &Option<String>) -> (r:
    Json)
    ensures
        r@ == if paged {
            JsonModel::object().put("items"@, JsonModel::Array(models(rows@))).put(
                "next_cursor"@,
                JsonModel::text_or_null(
                    match *next_cursor {
                        Some(c) => Some(c@),
                        None => None,
                    },
                ),
            )
        } else {
            JsonModel::object().put(name@, JsonModel::Array(models(rows@)))
        },
{
    let mut out = Json::object();
    if paged {
        out.set("items", Json::array(rows));
        out.set("next_cursor", Json::optional_text(next_cursor));
    } else {
        out.set(name, Json::array(rows));
    }
    out
}

/// The answer of a write that names a row: the store found it, or there is no
/// such thing.
pub fn row_found(found: bool, what: &str) -> (r: Result<(), ApiError>)
    ensures
        r is Ok <==> found,
        r matches Err(e) ==> e@ == (404u16, what@ + " not found"@),
{
    if found {
        return Ok(());
    }
    let mut m = owned(what);
    m.append(" not found");
    Err(ApiError::new(NOT_FOUND, m))
}

} // verus!
