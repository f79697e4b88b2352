//! Keyset cursors: `<sort-timestamp>|<tiebreak>`, handed out with a full page
//! and read back on the next request.

use vstd::prelude::*;
use vstd::slice::slice_subrange;

use crate::error::{ApiError, BAD_REQUEST};
use crate::number::{decimal, i64_of, parse_i64, push_i64};
use crate::text::{
    chars, cut, find, is_cc, is_control, is_space, law_a_text_is_cut_at_the_first, lemma_position,
    lemma_position_at, lemma_trim_is_identity, owned, string_of, trim_chars, trimmed,
};

verus! {

/// The longest stretch of a caller's value that an error body repeats.
pub const ECHO_MAX: usize = 64;

/// The cursor text for a row: its sort timestamp, a bar, its tiebreak.
pub open spec fn cursor_text(ts: Seq<char>, tiebreak: Seq<char>) -> Seq<char> {
    ts + seq!['|'] + tiebreak
}

/// Builds the cursor of a row whose tiebreak is text.
pub fn text_cursor(ts: &str, tiebreak: &str) -> (r: String)
    ensures
        r@ == cursor_text(ts@, tiebreak@),
{
    let mut out = owned(ts);
    out.push('|');
    out.append(tiebreak);
    assert(out@ =~= cursor_text(ts@, tiebreak@));
    out
}

/// Builds the cursor of a row whose tiebreak is a number.
pub fn number_cursor(ts: &str, tiebreak: i64) -> (r: String)
    ensures
        r@ == cursor_text(ts@, decimal(tiebreak as int)),
{
    let mut out = owned(ts);
    out.push('|');
    push_i64(&mut out, tiebreak);
    assert(out@ =~= cursor_text(ts@, decimal(tiebreak as int)));
    out
}

/// The pair a cursor stands for: its trimmed text, cut at the first bar. Blank
/// text and text without a bar stand for no pair.
pub open spec fn cursor_pair(s: Seq<char>) -> Option<(Seq<char>, Seq<char>)> {
    cut(trimmed(s), '|')
}

/// A pair of owned strings as a pair of sequences.
pub open spec fn pair_view(p: Option<(String, String)>) -> Option<(Seq<char>, Seq<char>)> {
    match p {
        Some((a, b)) => Some((a@, b@)),
        None => None,
    }
}

/// Decodes a cursor back into its pair; `None` asks for the first page.
pub fn parse_cursor(cursor: &str) -> (r: Option<(String, String)>)
    ensures
        pair_view(r) == cursor_pair(cursor@),
{
    let cs = chars(cursor);
    let t = trim_chars(&cs);
    let p = find(t, '|');
    if p < t.len() {
        assert(t@.subrange(0, p as int) =~= t@.take(p as int));
        assert(t@.subrange(p + 1, t@.len() as int) =~= t@.skip(p + 1));
        Some((string_of(slice_subrange(t, 0, p)), string_of(slice_subrange(t, p + 1, t.len()))))
    } else {
        None
    }
}

/// Lenient cursor with a numeric tiebreak: anything unreadable asks for the
/// first page.
pub fn parse_cursor_i64(cursor: &str) -> (r: Option<(String, i64)>)
    ensures
        match r {
            Some((ts, n)) => exists|tie: Seq<char>|
                cursor_pair(cursor@) == Some((ts@, tie)) && #[trigger] i64_of(tie) == Some(n),
            None => match cursor_pair(cursor@) {
                Some((_, tie)) => i64_of(tie) is None,
                None => true,
            },
        },
{
    match parse_cursor(cursor) {
        Some((ts, tie)) => match parse_i64(tie.as_str()) {
            Some(n) => {
                assert(i64_of(tie@) == Some(n));
                Some((ts, n))
            },
            None => None,
        },
        None => None,
    }
}

/// `s` without its control characters.
pub open spec fn clean(s: Seq<char>) -> Seq<char> {
    s.filter(|c: char| !is_cc(c))
}

/// What an error body shows of a caller's value.
pub open spec fn echoed(raw: Seq<char>) -> Seq<char> {
    let shown = clean(
        raw.take(
            if raw.len() < 64 {
                raw.len() as int
            } else {
                64
            },
        ),
    );
    if raw.len() > 64 {
        seq!['\''] + shown + seq!['…', '\'']
    } else {
        seq!['\''] + shown + seq!['\'']
    }
}

/// Quotes a caller-supplied value back into an error body without letting a
/// hostile, or merely enormous, query string become the response.
pub fn echo_arg(raw: &str) -> (r: String)
    ensures
        r@ == echoed(raw@),
{
    let cs = chars(raw);
    let n: usize = if cs.len() < ECHO_MAX {
        cs.len()
    } else {
        ECHO_MAX
    };
    let mut out = String::new();
    out.push('\'');
    let mut i: usize = 0;
    proof {
        reveal(Seq::filter);
        assert(clean(cs@.take(0)) =~= Seq::<char>::empty());
    }
    while i < n
        invariant
            i <= n <= cs@.len(),
            out@ =~= seq!['\''] + clean(cs@.take(i as int)),
        decreases n - i,
    {
        proof {
            reveal(Seq::filter);
            assert(cs@.take(i + 1).drop_last() =~= cs@.take(i as int));
        }
        if !is_control(cs[i]) {
            out.push(cs[i]);
        }
        i += 1;
    }
    if cs.len() > ECHO_MAX {
        out.push('…');
    }
    out.push('\'');
    assert(out@ =~= echoed(raw@));
    out
}

/// The body of a malformed-cursor refusal.
pub open spec fn bad_cursor_text(cursor: Seq<char>) -> Seq<char> {
    "invalid 'cursor' "@ + echoed(cursor)
        + ": expected the opaque `<created_at>|<tiebreak>` token this API returns in 'next_cursor' (e.g. `2026-07-26T00:00:00.000000Z|41`). Send the param empty or omit it to start at the first page."@
}

/// The one malformed-cursor body, so that it reads identically on every route
/// that parses a cursor strictly.
pub fn bad_cursor_message(cursor: &str) -> (r: String)
    ensures
        r@ == bad_cursor_text(cursor@),
{
    let mut out = owned("invalid 'cursor' ");
    out.append(echo_arg(cursor).as_str());
    out.append(
        ": expected the opaque `<created_at>|<tiebreak>` token this API returns in 'next_cursor' (e.g. `2026-07-26T00:00:00.000000Z|41`). Send the param empty or omit it to start at the first page.",
    );
    out
}

/// Strict cursor parse for the feeds where ignoring a cursor would restart a
/// mirror at the newest row. Blank text asks for the first page; anything else
/// that is not a pair is refused.
pub fn parse_cursor_arg(cursor: &str) -> (r: Result<Option<(String, String)>, ApiError>)
    ensures
        match r {
            Ok(pair) => pair_view(pair) == cursor_pair(cursor@) && (pair is None
                ==> trimmed(cursor@).len() == 0),
            Err(e) => trimmed(cursor@).len() > 0 && cursor_pair(cursor@) is None && e@ == (
                400u16,
                bad_cursor_text(cursor@),
            ),
        },
{
    let cs = chars(cursor);
    let t = trim_chars(&cs);
    if t.len() == 0 {
        return Ok(None);
    }
    match parse_cursor(cursor) {
        Some(pair) => Ok(Some(pair)),
        None => Err(ApiError::new(BAD_REQUEST, bad_cursor_message(cursor))),
    }
}

/// What a strict numeric cursor stands for: no position, a position, or nothing
/// that can be read.
pub enum Seek {
    FirstPage,
    After(Seq<char>, i64),
    Malformed,
}

/// Reads a strict cursor whose tiebreak is a number.
pub open spec fn seek_of(cursor: Seq<char>) -> Seek {
    if trimmed(cursor).len() == 0 {
        Seek::FirstPage
    } else {
        match cursor_pair(cursor) {
            Some((ts, tie)) => match i64_of(tie) {
                Some(n) => Seek::After(ts, n),
                None => Seek::Malformed,
            },
            None => Seek::Malformed,
        }
    }
}

/// Strict cursor for the revision feeds, whose tiebreak is numeric. A
/// non-numeric tiebreak is exactly as malformed as a missing separator and gets
/// the same body.
pub fn parse_cursor_i64_arg(cursor: &str) -> (r: Result<Option<(String, i64)>, ApiError>)
    ensures
        match r {
            Ok(None) => seek_of(cursor@) is FirstPage,
            Ok(Some((ts, n))) => seek_of(cursor@) == Seek::After(ts@, n),
            Err(e) => seek_of(cursor@) is Malformed && e@ == (400u16, bad_cursor_text(cursor@)),
        },
{
    match parse_cursor_arg(cursor) {
        Err(e) => Err(e),
        Ok(None) => Ok(None),
        Ok(Some((ts, tie))) => match parse_i64(tie.as_str()) {
            Some(n) => Ok(Some((ts, n))),
            None => Err(ApiError::new(BAD_REQUEST, bad_cursor_message(cursor))),
        },
    }
}

/// Next-page cursor for a keyset page: given exactly when the page came back
/// full and non-empty, and then built from the last item.
pub fn keyset_cursor<T, F: Fn(&T) -> String>(items: &[T], limit: i64, encode: F) -> (r: Option<
    String,
>)
    requires
        items@.len() > 0 ==> call_requires(encode, (&items@.last(),)),
    ensures
        r is Some <==> items@.len() > 0 && items@.len() == limit,
        r matches Some(text) ==> call_ensures(encode, (&items@.last(),), text),
{
    if items.len() > 0 && limit >= 0 && items.len() as u64 == limit as u64 {
        Some(encode(&items[items.len() - 1]))
    } else {
        None
    }
}

/// A cursor that was handed out is read back as the pair it was built from,
/// provided the timestamp holds no bar and neither end carries white space.
pub proof fn law_cursor_round_trip(ts: Seq<char>, tiebreak: Seq<char>)
    requires
        forall|i: int| 0 <= i < ts.len() ==> ts[i] != '|',
        ts.len() > 0 ==> !is_space(ts[0]),
        tiebreak.len() > 0 ==> !is_space(tiebreak.last()),
    ensures
        cursor_pair(cursor_text(ts, tiebreak)) == Some((ts, tiebreak)),
{
    let s = cursor_text(ts, tiebreak);
    assert(s[0] == if ts.len() > 0 {
        ts[0]
    } else {
        '|'
    });
    assert(s.last() == if tiebreak.len() > 0 {
        tiebreak.last()
    } else {
        '|'
    });
    lemma_trim_is_identity(s);
    lemma_position_at(s, '|', ts.len() as int);
    assert(s.take(ts.len() as int) =~= ts);
    assert(s.skip(ts.len() as int + 1) =~= tiebreak);
}

/// A revision-feed cursor that was handed out is read back as the same
/// timestamp and the same number.
pub proof fn law_number_cursor_round_trip(ts: Seq<char>, tiebreak: i64)
    requires
        forall|i: int| 0 <= i < ts.len() ==> ts[i] != '|',
        ts.len() > 0 ==> !is_space(ts[0]),
    ensures
        seek_of(cursor_text(ts, decimal(tiebreak as int))) == Seek::After(ts, tiebreak),
{
    let tie = decimal(tiebreak as int);
    crate::number::law_decimal_round_trip(tiebreak);
    crate::number::lemma_digits_value((if tiebreak < 0 {
        -tiebreak
    } else {
        tiebreak as int
    }) as nat);
    assert(crate::number::is_digit(tie.last()));
    law_cursor_round_trip(ts, tie);
    let s = cursor_text(ts, tie);
    assert(s[0] == if ts.len() > 0 {
        ts[0]
    } else {
        '|'
    });
    assert(s.last() == tie.last());
    lemma_trim_is_identity(s);
}

/// The lenient and the strict reading of a cursor agree on every cursor that
/// stands for a pair; they differ only in that the strict one refuses text that
/// is neither blank nor a pair, where the lenient one restarts at the first page.
pub proof fn law_strict_refines_lenient(cursor: Seq<char>)
    ensures
        trimmed(cursor).len() == 0 ==> cursor_pair(cursor) is None && seek_of(
            cursor,
        ) is FirstPage,
        seek_of(cursor) matches Seek::After(ts, n) ==> exists|tie: Seq<char>|
            cursor_pair(cursor) == Some((ts, tie)) && #[trigger] i64_of(tie) == Some(n),
        cursor_pair(cursor) is None && trimmed(cursor).len() > 0 ==> seek_of(cursor) is Malformed,
{
    lemma_position(trimmed(cursor), '|');
}

proof fn lemma_filtered(s: Seq<char>)
    ensures
        clean(s).len() <= s.len(),
        forall|i: int| 0 <= i < clean(s).len() ==> !is_cc(#[trigger] clean(s)[i]),
    decreases s.len(),
{
    reveal(Seq::filter);
    if s.len() > 0 {
        lemma_filtered(s.drop_last());
    }
}

/// However long or hostile the value, what an error body repeats of it holds at
/// most 67 characters and no control character.
pub proof fn law_echo_is_bounded_and_clean(raw: Seq<char>)
    ensures
        echoed(raw).len() <= 67,
        forall|i: int| 0 <= i < echoed(raw).len() ==> !is_cc(#[trigger] echoed(raw)[i]),
{
    lemma_filtered(
        raw.take(
            if raw.len() < 64 {
                raw.len() as int
            } else {
                64
            },
        ),
    );
}

/// The malformed-cursor body is bounded whatever was sent.
pub proof fn law_bad_cursor_text_is_bounded(cursor: Seq<char>)
    ensures
        bad_cursor_text(cursor).len() <= 300,
{
    law_echo_is_bounded_and_clean(cursor);
    reveal_strlit("invalid 'cursor' ");
    reveal_strlit(
        ": expected the opaque `<created_at>|<tiebreak>` token this API returns in 'next_cursor' (e.g. `2026-07-26T00:00:00.000000Z|41`). Send the param empty or omit it to start at the first page.",
    );
}

/// A cursor is read as its trimmed text, cut at the first bar: what stands before and
/// what stands behind. A text without a bar is no cursor.
pub proof fn law_a_cursor_is_cut_at_its_first_bar(cursor: Seq<char>)
    ensures
        cursor_pair(cursor) is None <==> !trimmed(cursor).contains('|'),
        cursor_pair(cursor) matches Some((ts, tie)) ==> trimmed(cursor) == ts + seq!['|'] + tie
            && !ts.contains('|'),
{
    law_a_text_is_cut_at_the_first(trimmed(cursor), '|');
}

/// A short argument without control characters is echoed between quotes as it is; of
/// a long one the beginning is, and a mark that more came.
pub proof fn law_an_echo_shows_what_was_sent(raw: Seq<char>)
    requires
        forall|i: int| 0 <= i < raw.len() ==> !is_cc(#[trigger] raw[i]),
    ensures
        raw.len() <= 64 ==> echoed(raw) == seq!['\''] + raw + seq!['\''],
        raw.len() > 64 ==> echoed(raw) == seq!['\''] + raw.take(64) + seq!['…', '\''],
{
    let n: int = if raw.len() < 64 {
        raw.len() as int
    } else {
        64
    };
    lemma_all_clean(raw.take(n));
    assert(raw.take(raw.len() as int) =~= raw);
}

proof fn lemma_all_clean(s: Seq<char>)
    requires
        forall|i: int| 0 <= i < s.len() ==> !is_cc(#[trigger] s[i]),
    ensures
        clean(s) == s,
    decreases s.len(),
{
    reveal(Seq::filter);
    if s.len() > 0 {
        assert forall|i: int| 0 <= i < s.drop_last().len() implies !is_cc(
            #[trigger] s.drop_last()[i],
        ) by {
            assert(s[i] == s.drop_last()[i]);
        }
        lemma_all_clean(s.drop_last());
        assert(!is_cc(s[s.len() - 1]));
        assert(s =~= s.drop_last().push(s.last()));
    }
    assert(clean(s) =~= s);
}

} // verus!
