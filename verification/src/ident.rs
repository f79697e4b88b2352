//! Identifiers: UUIDs as their sixteen bytes, SHA-256 digests, and their texts.

use vstd::prelude::*;
use vstd::utf8::encode_utf8;

verus! {

/// The lower-case hexadecimal digit of a nibble.
pub open spec fn nibble_char(n: int) -> char {
    if n < 10 {
        (48 + n) as char
    } else {
        (87 + n) as char
    }
}

/// The bytes in lower-case hexadecimal.
pub open spec fn hex_of(bytes: Seq<u8>) -> Seq<char>
    decreases bytes.len(),
{
    if bytes.len() == 0 {
        Seq::empty()
    } else {
        hex_of(bytes.drop_last()).push(nibble_char(bytes.last() as int / 16)).push(
            nibble_char(bytes.last() as int % 16),
        )
    }
}

fn nibble(n: u8) -> (r: char)
    requires
        n < 16,
    ensures
        r == nibble_char(n as int),
{
    if n < 10 {
        (48 + n) as char
    } else {
        (87 + n) as char
    }
}

fn push_hex(out: &mut String, bytes: &[u8], from: usize, to: usize)
    requires
        from <= to <= bytes@.len(),
    ensures
        final(out)@ == old(out)@ + hex_of(bytes@.subrange(from as int, to as int)),
{
    let ghost before = out@;
    let mut i: usize = from;
    assert(bytes@.subrange(from as int, from as int) =~= Seq::<u8>::empty());
    while i < to
        invariant
            from <= i <= to <= bytes@.len(),
            out@ =~= before + hex_of(bytes@.subrange(from as int, i as int)),
        decreases to - i,
    {
        assert(bytes@.subrange(from as int, i + 1).drop_last() =~= bytes@.subrange(
            from as int,
            i as int,
        ));
        out.push(nibble(bytes[i] / 16));
        out.push(nibble(bytes[i] % 16));
        i += 1;
    }
}

/// The bytes in lower-case hexadecimal, as a string.
pub fn hex(bytes: &[u8]) -> (r: String)
    ensures
        r@ == hex_of(bytes@),
{
    let mut out = String::new();
    push_hex(&mut out, bytes, 0, bytes.len());
    assert(bytes@.subrange(0, bytes@.len() as int) =~= bytes@);
    assert(out@ =~= hex_of(bytes@));
    out
}

/// The hyphenated text of a UUID.
pub open spec fn uuid_text(b: Seq<u8>) -> Seq<char> {
    hex_of(b.subrange(0, 4)) + "-"@ + hex_of(b.subrange(4, 6)) + "-"@ + hex_of(b.subrange(6, 8))
        + "-"@ + hex_of(b.subrange(8, 10)) + "-"@ + hex_of(b.subrange(10, 16))
}

/// Writes a UUID in its hyphenated lower-case form.
pub fn show_uuid(id: &[u8; 16]) -> (r: String)
    ensures
        r@ == uuid_text(id@),
{
    let mut out = String::new();
    push_hex(&mut out, id, 0, 4);
    out.append("-");
    push_hex(&mut out, id, 4, 6);
    out.append("-");
    push_hex(&mut out, id, 6, 8);
    out.append("-");
    push_hex(&mut out, id, 8, 10);
    out.append("-");
    push_hex(&mut out, id, 10, 16);
    assert(Seq::<char>::empty() + hex_of(id@.subrange(0, 4)) =~= hex_of(id@.subrange(0, 4)));
    out
}

/// The number a lower-case hexadecimal digit stands for.
pub open spec fn nibble_value(c: char) -> int {
    if '0' <= c <= '9' {
        c as int - 48
    } else if 'a' <= c <= 'f' {
        c as int - 87
    } else {
        -1
    }
}

/// Whether the two digits at a byte's place spell it, the higher first.
pub open spec fn spelled(text: Seq<char>, bytes: Seq<u8>, i: int) -> bool {
    let (high, low) = (nibble_value(text[2 * i]), nibble_value(text[2 * i + 1]));
    0 <= high < 16 && 0 <= low < 16 && 16 * high + low == bytes[i]
}

/// Hexadecimal text spells each byte with two lower-case digits, the higher first.
pub proof fn law_hex_spells_every_byte(bytes: Seq<u8>)
    ensures
        hex_of(bytes).len() == 2 * bytes.len(),
        forall|i: int| 0 <= i < bytes.len() ==> #[trigger] spelled(hex_of(bytes), bytes, i),
    decreases bytes.len(),
{
    if bytes.len() > 0 {
        let rest = bytes.drop_last();
        law_hex_spells_every_byte(rest);
        let b = bytes.last() as int;
        let n = rest.len() as int;
        let h = hex_of(rest);
        assert(nibble_value(nibble_char(b / 16)) == b / 16);
        assert(nibble_value(nibble_char(b % 16)) == b % 16);
        assert forall|i: int| 0 <= i < bytes.len() implies #[trigger] spelled(
            hex_of(bytes),
            bytes,
            i,
        ) by {
            if i < n {
                assert(spelled(h, rest, i));
                assert(hex_of(bytes)[2 * i] == h[2 * i]);
                assert(hex_of(bytes)[2 * i + 1] == h[2 * i + 1]);
            } else {
                assert(hex_of(bytes)[2 * n] == nibble_char(b / 16));
                assert(hex_of(bytes)[2 * n + 1] == nibble_char(b % 16));
            }
        }
    }
}

proof fn lemma_hex_joins(a: Seq<u8>, b: Seq<u8>)
    ensures
        hex_of(a + b) == hex_of(a) + hex_of(b),
    decreases b.len(),
{
    if b.len() == 0 {
        assert(a + b =~= a);
    } else {
        lemma_hex_joins(a, b.drop_last());
        assert((a + b).drop_last() =~= a + b.drop_last());
        assert(hex_of(a + b) =~= hex_of(a) + hex_of(b));
    }
}

/// A UUID's text is its sixteen bytes in hexadecimal, with a hyphen after the eighth,
/// the twelfth, the sixteenth and the twentieth digit.
pub proof fn law_a_uuid_is_its_bytes_in_five_groups(b: Seq<u8>)
    requires
        b.len() == 16,
    ensures
        uuid_text(b).len() == 36,
        uuid_text(b)[8] == '-' && uuid_text(b)[13] == '-' && uuid_text(b)[18] == '-' && uuid_text(
            b,
        )[23] == '-',
        uuid_text(b).subrange(0, 8) + uuid_text(b).subrange(9, 13) + uuid_text(b).subrange(14, 18)
            + uuid_text(b).subrange(19, 23) + uuid_text(b).subrange(24, 36) == hex_of(b),
{
    reveal_strlit("-");
    let (p, q, r, s, t) = (
        b.subrange(0, 4),
        b.subrange(4, 6),
        b.subrange(6, 8),
        b.subrange(8, 10),
        b.subrange(10, 16),
    );
    law_hex_spells_every_byte(p);
    law_hex_spells_every_byte(q);
    law_hex_spells_every_byte(r);
    law_hex_spells_every_byte(s);
    law_hex_spells_every_byte(t);
    lemma_hex_joins(p, q);
    lemma_hex_joins(p + q, r);
    lemma_hex_joins(p + q + r, s);
    lemma_hex_joins(p + q + r + s, t);
    assert(p + q + r + s + t =~= b);
    let u = uuid_text(b);
    assert(u.subrange(0, 8) =~= hex_of(p));
    assert(u.subrange(9, 13) =~= hex_of(q));
    assert(u.subrange(14, 18) =~= hex_of(r));
    assert(u.subrange(19, 23) =~= hex_of(s));
    assert(u.subrange(24, 36) =~= hex_of(t));
}

/// The sixteen bytes a UUID text stands for.
pub uninterp spec fn uuid_reading(s: Seq<char>) -> Option<Seq<u8>>;

/// `uuid::Uuid::parse_str`, with the identifier as its sixteen bytes and a
/// refusal as `None`. The result depends on the text alone.
#[verifier::external_body]
pub(crate) fn read_uuid(s: &str) -> (r: Option<[u8; 16]>)
    ensures
        match r {
            Some(b) => uuid_reading(s@) == Some(b@),
            None => uuid_reading(s@) is None,
        },
{
    uuid::Uuid::parse_str(s).ok().map(|u| u.into_bytes())
}

/// `uuid::Uuid::new_v4`, as its sixteen bytes: random, except that the version
/// nibble is 4 and the variant bits are the standard ones.
#[verifier::external_body]
pub(crate) fn fresh_uuid() -> (r: [u8; 16])
    ensures
        r@[6] / 16 == 4,
        r@[8] / 64 == 2,
{
    uuid::Uuid::new_v4().into_bytes()
}

/// The SHA-256 digest of a byte string.
pub uninterp spec fn sha256_of(data: Seq<u8>) -> Seq<u8>;

/// `sha2::Sha256::digest`: thirty-two bytes that depend on the data alone.
#[verifier::external_body]
pub(crate) fn sha256(data: &[u8]) -> (r: [u8; 32])
    ensures
        r@ == sha256_of(data@),
{
    <sha2::Sha256 as sha2::Digest>::digest(data).into()
}

/// The digest of a text's UTF-8 bytes in hexadecimal.
pub open spec fn text_digest(s: Seq<char>) -> Seq<char> {
    hex_of(sha256_of(encode_utf8(s)))
}

/// SHA-256 over a text's UTF-8 bytes, in lower-case hexadecimal.
pub fn digest_text(s: &str) -> (r: String)
    ensures
        r@ == text_digest(s@),
{
    let d = sha256(s.as_bytes());
    hex(&d)
}

} // verus!
