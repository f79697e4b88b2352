//! Numbers as text: decimal rendering, strict integer parsing, and the grammar
//! of floating-point literals.

use vstd::prelude::*;
use vstd::slice::slice_subrange;

use crate::text::{chars, find, lemma_trim_is_identity, trimmed};

verus! {

/// The character of a decimal digit.
pub open spec fn digit(d: nat) -> char {
    (48 + d) as char
}

/// The decimal text of `n`, without leading zeros.
pub open spec fn digits(n: nat) -> Seq<char>
    decreases n,
{
    if n < 10 {
        seq![digit(n)]
    } else {
        digits(n / 10).push(digit(n % 10))
    }
}

/// The decimal text of an integer, with `-` in front of a negative one.
pub open spec fn decimal(i: int) -> Seq<char> {
    if i < 0 {
        seq!['-'] + digits((-i) as nat)
    } else {
        digits(i as nat)
    }
}

fn push_digits(out: &mut String, n: u64)
    ensures
        final(out)@ == old(out)@ + digits(n as nat),
    decreases n,
{
    let ghost before = out@;
    if n >= 10 {
        push_digits(out, n / 10);
    }
    let d: u8 = (n % 10) as u8;
    out.push((48 + d) as char);
    assert(out@ =~= before + digits(n as nat));
}

/// Appends the decimal text of `n`.
pub fn push_u64(out: &mut String, n: u64)
    ensures
        final(out)@ == old(out)@ + decimal(n as int),
{
    push_digits(out, n);
}

/// Appends the decimal text of `n`.
pub fn push_i64(out: &mut String, n: i64)
    ensures
        final(out)@ == old(out)@ + decimal(n as int),
{
    let ghost before = out@;
    if n < 0 {
        out.push('-');
        let magnitude: u64 = if n == i64::MIN {
            9_223_372_036_854_775_808
        } else {
            (-n) as u64
        };
        push_digits(out, magnitude);
        assert(out@ =~= before + decimal(n as int));
    } else {
        push_digits(out, n as u64);
    }
}

/// The decimal text of `n`.
pub fn show_u64(n: u64) -> (r: String)
    ensures
        r@ == decimal(n as int),
{
    let mut out = String::new();
    push_u64(&mut out, n);
    assert(out@ =~= decimal(n as int));
    out
}

/// The decimal text of `n`.
pub fn show_i64(n: i64) -> (r: String)
    ensures
        r@ == decimal(n as int),
{
    let mut out = String::new();
    push_i64(&mut out, n);
    assert(out@ =~= decimal(n as int));
    out
}

/// Whether `c` is an ASCII decimal digit.
pub open spec fn is_digit(c: char) -> bool {
    '0' <= c <= '9'
}

/// Whether every character of `s` is a digit.
pub open spec fn only_digits(s: Seq<char>) -> bool {
    forall|i: int| 0 <= i < s.len() ==> is_digit(#[trigger] s[i])
}

/// The number a run of digits stands for.
pub open spec fn value(s: Seq<char>) -> nat
    decreases s.len(),
{
    if s.len() == 0 {
        0
    } else {
        (value(s.drop_last()) * 10 + (s.last() as nat - 48)) as nat
    }
}

/// An unsigned integer literal: an optional `+`, then one or more digits.
pub open spec fn unsigned_value(s: Seq<char>) -> Option<nat> {
    let body = if s.len() > 0 && s[0] == '+' {
        s.skip(1)
    } else {
        s
    };
    if body.len() > 0 && only_digits(body) {
        Some(value(body))
    } else {
        None
    }
}

/// A signed integer literal: an optional `+` or `-`, then one or more digits.
pub open spec fn signed_value(s: Seq<char>) -> Option<int> {
    if s.len() > 0 && s[0] == '-' {
        let body = s.skip(1);
        if body.len() > 0 && only_digits(body) {
            Some(-value(body))
        } else {
            None
        }
    } else {
        match unsigned_value(s) {
            Some(n) => Some(n as int),
            None => None,
        }
    }
}

/// The `u64` that `s` spells, if it spells one.
pub open spec fn u64_of(s: Seq<char>) -> Option<u64> {
    match unsigned_value(s) {
        Some(n) => if n <= u64::MAX {
            Some(n as u64)
        } else {
            None
        },
        None => None,
    }
}

/// The `i64` that `s` spells, if it spells one.
pub open spec fn i64_of(s: Seq<char>) -> Option<i64> {
    match signed_value(s) {
        Some(n) => if i64::MIN <= n <= i64::MAX {
            Some(n as i64)
        } else {
            None
        },
        None => None,
    }
}

/// What a run of characters is worth as an unsigned number.
enum Magnitude {
    NotDigits,
    TooLarge,
    Fits(u64),
}

fn magnitude(cs: &[char]) -> (r: Magnitude)
    ensures
        match r {
            Magnitude::NotDigits => cs@.len() == 0 || !only_digits(cs@),
            Magnitude::TooLarge => cs@.len() > 0 && only_digits(cs@) && value(cs@) > u64::MAX,
            Magnitude::Fits(n) => cs@.len() > 0 && only_digits(cs@) && value(cs@) == n,
        },
{
    if cs.len() == 0 {
        return Magnitude::NotDigits;
    }
    let mut total: u64 = 0;
    let mut over: bool = false;
    let mut i: usize = 0;
    assert(cs@.take(0) =~= Seq::<char>::empty());
    while i < cs.len()
        invariant
            i <= cs@.len(),
            only_digits(cs@.take(i as int)),
            over ==> value(cs@.take(i as int)) > u64::MAX,
            !over ==> value(cs@.take(i as int)) == total,
        decreases cs@.len() - i,
    {
        let c = cs[i];
        if c < '0' || c > '9' {
            assert(!is_digit(cs@[i as int]));
            return Magnitude::NotDigits;
        }
        let d: u64 = (c as u32 - 48) as u64;
        let ghost next = cs@.take(i + 1);
        assert(next.drop_last() =~= cs@.take(i as int));
        assert(next.last() == c);
        assert(value(next) == value(cs@.take(i as int)) * 10 + d);
        assert(only_digits(next)) by {
            assert forall|k: int| 0 <= k < next.len() implies is_digit(#[trigger] next[k]) by {
                if k < i {
                    assert(next[k] == cs@.take(i as int)[k]);
                }
            }
        }
        if !over {
            match total.checked_mul(10) {
                None => {
                    over = true;
                },
                Some(t) => match t.checked_add(d) {
                    None => {
                        over = true;
                    },
                    Some(u) => {
                        total = u;
                    },
                },
            }
        }
        i += 1;
    }
    assert(cs@.take(cs@.len() as int) =~= cs@);
    if over {
        Magnitude::TooLarge
    } else {
        Magnitude::Fits(total)
    }
}

/// Reads an unsigned 64-bit integer, as `str::parse::<u64>` does.
pub fn read_u64(cs: &[char]) -> (r: Option<u64>)
    ensures
        r == u64_of(cs@),
{
    let body = if cs.len() > 0 && cs[0] == '+' {
        slice_subrange(cs, 1, cs.len())
    } else {
        cs
    };
    assert(cs@.len() > 0 ==> cs@.subrange(1, cs@.len() as int) =~= cs@.skip(1));
    match magnitude(body) {
        Magnitude::NotDigits => None,
        Magnitude::TooLarge => None,
        Magnitude::Fits(n) => Some(n),
    }
}

/// Reads a signed 64-bit integer, as `str::parse::<i64>` does.
pub fn read_i64(cs: &[char]) -> (r: Option<i64>)
    ensures
        r == i64_of(cs@),
{
    assert(cs@.len() > 0 ==> cs@.subrange(1, cs@.len() as int) =~= cs@.skip(1));
    if cs.len() > 0 && cs[0] == '-' {
        match magnitude(slice_subrange(cs, 1, cs.len())) {
            Magnitude::NotDigits => None,
            Magnitude::TooLarge => None,
            Magnitude::Fits(n) => if n <= 9_223_372_036_854_775_807 {
                Some(-(n as i64))
            } else if n == 9_223_372_036_854_775_808 {
                Some(i64::MIN)
            } else {
                None
            },
        }
    } else {
        let body = if cs.len() > 0 && cs[0] == '+' {
            slice_subrange(cs, 1, cs.len())
        } else {
            cs
        };
        match magnitude(body) {
            Magnitude::NotDigits => None,
            Magnitude::TooLarge => None,
            Magnitude::Fits(n) => if n <= 9_223_372_036_854_775_807 {
                Some(n as i64)
            } else {
                None
            },
        }
    }
}

/// Reads an unsigned 64-bit integer out of a string.
pub fn parse_u64(s: &str) -> (r: Option<u64>)
    ensures
        r == u64_of(s@),
{
    read_u64(&chars(s))
}

/// Reads a signed 64-bit integer out of a string.
pub fn parse_i64(s: &str) -> (r: Option<i64>)
    ensures
        r == i64_of(s@),
{
    read_i64(&chars(s))
}

/// The decimal text of a number is a run of digits worth that number.
pub proof fn lemma_digits_value(n: nat)
    ensures
        digits(n).len() > 0,
        only_digits(digits(n)),
        value(digits(n)) == n,
    decreases n,
{
    if n < 10 {
        assert(digits(n).drop_last() =~= Seq::<char>::empty());
        assert(value(digits(n).drop_last()) == 0);
    } else {
        lemma_digits_value(n / 10);
        assert(digits(n).drop_last() =~= digits(n / 10));
    }
}

/// Reading back a rendered `i64` gives the same number.
pub proof fn law_decimal_round_trip(n: i64)
    ensures
        i64_of(decimal(n as int)) == Some(n),
{
    if n < 0 {
        lemma_digits_value((-n) as nat);
        assert(decimal(n as int).skip(1) =~= digits((-n) as nat));
    } else {
        lemma_digits_value(n as nat);
        assert(is_digit(digits(n as nat)[0]));
    }
}

/// Reading back a rendered `u64` gives the same number.
pub proof fn law_unsigned_round_trip(n: u64)
    ensures
        u64_of(decimal(n as int)) == Some(n),
{
    lemma_digits_value(n as nat);
    assert(is_digit(digits(n as nat)[0]));
}

/// A rendered number carries no white space.
pub proof fn lemma_decimal_is_trimmed(n: int)
    ensures
        trimmed(decimal(n)) == decimal(n),
{
    lemma_digits_value(
        (if n < 0 {
            -n
        } else {
            n
        }) as nat,
    );
    let s = decimal(n);
    assert(is_digit(s.last()));
    assert(is_digit(s[0]) || s[0] == '-');
    lemma_trim_is_identity(s);
}

/// `c` with an ASCII capital letter turned into its small one.
pub open spec fn lower(c: char) -> char {
    if 'A' <= c <= 'Z' {
        (c as u32 + 32) as char
    } else {
        c
    }
}

/// `s` with its ASCII capitals turned into small letters.
pub open spec fn lowered(s: Seq<char>) -> Seq<char> {
    s.map_values(|c: char| lower(c))
}

/// The digits of a floating-point literal: `12`, `12.`, `.5` or `12.5`.
pub open spec fn is_mantissa(s: Seq<char>) -> bool {
    match crate::text::cut(s, '.') {
        None => s.len() > 0 && only_digits(s),
        Some((whole, part)) => only_digits(whole) && only_digits(part) && whole.len() + part.len()
            > 0,
    }
}

/// The exponent of a floating-point literal: an optional sign, then digits.
pub open spec fn is_exponent(s: Seq<char>) -> bool {
    let body = unsigned_part(s);
    body.len() > 0 && only_digits(body)
}

/// `s` without one leading `+` or `-`.
pub open spec fn unsigned_part(s: Seq<char>) -> Seq<char> {
    if s.len() > 0 && (s[0] == '+' || s[0] == '-') {
        s.skip(1)
    } else {
        s
    }
}

/// A floating-point literal: an optional sign, then `inf`, `infinity`, `nan`,
/// or a mantissa with an optional exponent. Letters may be of either case.
pub open spec fn is_float(s: Seq<char>) -> bool {
    let body = unsigned_part(lowered(s));
    ||| body == "inf"@
    ||| body == "infinity"@
    ||| body == "nan"@
    ||| match crate::text::cut(body, 'e') {
        None => is_mantissa(body),
        Some((mantissa, exponent)) => is_mantissa(mantissa) && is_exponent(exponent),
    }
}

fn lower_char(c: char) -> (r: char)
    ensures
        r == lower(c),
{
    if 'A' <= c && c <= 'Z' {
        let n: u8 = c as u8;
        (n + 32) as char
    } else {
        c
    }
}

/// `cs` with its ASCII capitals turned into small letters.
pub fn lower_chars(cs: &[char]) -> (r: Vec<char>)
    ensures
        r@ == lowered(cs@),
{
    let mut out: Vec<char> = Vec::new();
    let mut i: usize = 0;
    while i < cs.len()
        invariant
            i <= cs@.len(),
            out@ =~= lowered(cs@.take(i as int)),
        decreases cs@.len() - i,
    {
        out.push(lower_char(cs[i]));
        i += 1;
    }
    assert(cs@.take(cs@.len() as int) =~= cs@);
    out
}

fn all_digits(cs: &[char]) -> (r: bool)
    ensures
        r == only_digits(cs@),
{
    let mut i: usize = 0;
    while i < cs.len()
        invariant
            i <= cs@.len(),
            forall|k: int| 0 <= k < i ==> is_digit(#[trigger] cs@[k]),
        decreases cs@.len() - i,
    {
        if cs[i] < '0' || cs[i] > '9' {
            assert(!is_digit(cs@[i as int]));
            return false;
        }
        i += 1;
    }
    true
}

fn strip_sign(cs: &[char]) -> (r: &[char])
    ensures
        r@ == unsigned_part(cs@),
{
    if cs.len() > 0 && (cs[0] == '+' || cs[0] == '-') {
        assert(cs@.subrange(1, cs@.len() as int) =~= cs@.skip(1));
        slice_subrange(cs, 1, cs.len())
    } else {
        cs
    }
}

fn mantissa_ok(cs: &[char]) -> (r: bool)
    ensures
        r == is_mantissa(cs@),
{
    let p = find(cs, '.');
    if p < cs.len() {
        assert(cs@.subrange(0, p as int) =~= cs@.take(p as int));
        assert(cs@.subrange(p + 1, cs@.len() as int) =~= cs@.skip(p + 1));
        let whole = slice_subrange(cs, 0, p);
        let part = slice_subrange(cs, p + 1, cs.len());
        all_digits(whole) && all_digits(part) && (whole.len() > 0 || part.len() > 0)
    } else {
        cs.len() > 0 && all_digits(cs)
    }
}

/// Whether `s` spells a floating-point number, by the grammar `str::parse`
/// documents for floats.
pub fn spells_float(s: &str) -> (r: bool)
    ensures
        r == is_float(s@),
{
    let all = lower_chars(&chars(s));
    let body = strip_sign(&all);
    if crate::text::same_chars(body, &chars("inf")) || crate::text::same_chars(
        body,
        &chars("infinity"),
    ) || crate::text::same_chars(body, &chars("nan")) {
        return true;
    }
    let e = find(body, 'e');
    if e < body.len() {
        assert(body@.subrange(0, e as int) =~= body@.take(e as int));
        assert(body@.subrange(e + 1, body@.len() as int) =~= body@.skip(e + 1));
        let exponent = strip_sign(slice_subrange(body, e + 1, body.len()));
        mantissa_ok(slice_subrange(body, 0, e)) && exponent.len() > 0 && all_digits(exponent)
    } else {
        mantissa_ok(body)
    }
}

/// Digits with a point before, between or behind them spell a number, and so do
/// digits alone; nothing at all does not, nor a point on its own.
pub proof fn law_digits_and_a_point_spell_a_number(whole: Seq<char>, part: Seq<char>)
    requires
        only_digits(whole),
        only_digits(part),
    ensures
        is_mantissa(whole + seq!['.'] + part) <==> whole.len() + part.len() > 0,
        is_mantissa(whole) <==> whole.len() > 0,
{
    let all = whole + seq!['.'] + part;
    assert forall|k: int| 0 <= k < whole.len() implies all[k] != '.' by {
        assert(is_digit(whole[k]));
    }
    crate::text::lemma_position_at(all, '.', whole.len() as int);
    assert(all.take(whole.len() as int) =~= whole);
    assert(all.skip(whole.len() as int + 1) =~= part);
    crate::text::law_a_text_is_cut_at_the_first(whole, '.');
    if whole.contains('.') {
        let k = choose|k: int| 0 <= k < whole.len() && whole[k] == '.';
        assert(is_digit(whole[k]));
    }
}

/// A number reads the same in capitals.
pub proof fn law_numbers_read_the_same_in_any_case(s: Seq<char>)
    ensures
        is_float(lowered(s)) == is_float(s),
{
    assert forall|i: int| 0 <= i < s.len() implies lowered(lowered(s))[i] == lowered(s)[i] by {
        let c = s[i];
        if 'A' <= c <= 'Z' {
            assert(lower(c) as u32 == c as u32 + 32);
        }
    }
    assert(lowered(lowered(s)) =~= lowered(s));
}

/// A signed number is digits with a plus or a minus before them, or nothing; a sign
/// alone is none.
pub proof fn law_an_integer_is_digits_behind_a_sign(body: Seq<char>)
    requires
        only_digits(body),
    ensures
        body.len() > 0 ==> signed_value(seq!['-'] + body) == Some(-(value(body) as int)),
        body.len() > 0 ==> signed_value(seq!['+'] + body) == Some(value(body) as int),
        body.len() > 0 ==> signed_value(body) == Some(value(body) as int),
        signed_value(seq!['-']) is None && signed_value(seq!['+']) is None && signed_value(
            Seq::empty(),
        ) is None,
{
    assert((seq!['-'] + body).skip(1) =~= body);
    assert((seq!['+'] + body).skip(1) =~= body);
    assert(seq!['-'].skip(1) =~= Seq::empty());
    assert(seq!['+'].skip(1) =~= Seq::empty());
    if body.len() > 0 {
        assert(is_digit(body[0]));
    }
}

proof fn lemma_lower_digits(s: Seq<char>)
    requires
        only_digits(s),
    ensures
        lowered(s) == s,
{
    assert forall|i: int| 0 <= i < s.len() implies lowered(s)[i] == s[i] by {
        assert(is_digit(s[i]));
    }
    assert(lowered(s) =~= s);
}

/// A number may carry a power of ten behind an `e`, signed or not, but not an empty
/// one.
pub proof fn law_a_number_may_carry_an_exponent(mantissa: Seq<char>, power: Seq<char>)
    requires
        only_digits(mantissa),
        mantissa.len() > 0,
        only_digits(power),
    ensures
        is_float(mantissa),
        is_float(mantissa + seq!['e'] + power) <==> power.len() > 0,
        is_float(mantissa + seq!['e', '-'] + power) <==> power.len() > 0,
{
    lemma_lower_digits(mantissa);
    lemma_lower_digits(power);
    lemma_exponent(mantissa, power);
    assert(lowered(seq!['-'] + power) =~= seq!['-'] + lowered(power)) by {
        assert(lower('-') == '-');
    }
    lemma_exponent(mantissa, seq!['-'] + power);
    assert(mantissa + seq!['e', '-'] + power =~= mantissa + seq!['e'] + (seq!['-'] + power));
    assert(is_digit(mantissa[0]));
    law_digits_and_a_point_spell_a_number(mantissa, Seq::empty());
    crate::text::law_a_text_is_cut_at_the_first(mantissa, 'e');
    if mantissa.contains('e') {
        let k = choose|k: int| 0 <= k < mantissa.len() && mantissa[k] == 'e';
        assert(is_digit(mantissa[k]));
    }
    assert((seq!['-'] + power).skip(1) =~= power);
    if power.len() > 0 {
        assert(is_digit(power[0]));
    }
}

proof fn lemma_exponent(mantissa: Seq<char>, tail: Seq<char>)
    requires
        only_digits(mantissa),
        mantissa.len() > 0,
        lowered(tail) == tail,
    ensures
        is_float(mantissa + seq!['e'] + tail) <==> is_exponent(tail),
{
    reveal_strlit("inf");
    reveal_strlit("infinity");
    reveal_strlit("nan");
    let s = mantissa + seq!['e'] + tail;
    lemma_lower_digits(mantissa);
    assert(lowered(s) =~= lowered(mantissa) + seq!['e'] + lowered(tail)) by {
        assert(lower('e') == 'e');
    }
    assert(is_digit(mantissa[0]) && s[0] == mantissa[0]);
    assert("inf"@[0] == 'i' && "infinity"@[0] == 'i' && "nan"@[0] == 'n');
    assert forall|k: int| 0 <= k < mantissa.len() implies s[k] != 'e' by {
        assert(is_digit(mantissa[k]));
    }
    crate::text::lemma_position_at(s, 'e', mantissa.len() as int);
    assert(s.take(mantissa.len() as int) =~= mantissa);
    assert(s.skip(mantissa.len() as int + 1) =~= tail);
    law_digits_and_a_point_spell_a_number(mantissa, Seq::empty());
}

proof fn lemma_lower_letters(s: Seq<char>)
    requires
        forall|i: int| 0 <= i < s.len() ==> 'a' <= #[trigger] s[i] <= 'z',
    ensures
        lowered(s) == s,
{
    assert(lowered(s) =~= s);
}

/// The infinite and the undefined count as numbers, signed or not.
pub proof fn law_infinity_and_nan_are_numbers()
    ensures
        is_float("inf"@) && is_float("infinity"@) && is_float("nan"@),
        is_float(seq!['-'] + "inf"@) && is_float(seq!['+'] + "nan"@),
{
    reveal_strlit("inf");
    reveal_strlit("infinity");
    reveal_strlit("nan");
    lemma_lower_letters("inf"@);
    lemma_lower_letters("infinity"@);
    lemma_lower_letters("nan"@);
    assert("inf"@[0] == 'i' && "infinity"@[0] == 'i' && "nan"@[0] == 'n');
    assert(lowered(seq!['-'] + "inf"@) =~= seq!['-'] + lowered("inf"@));
    assert(lowered(seq!['+'] + "nan"@) =~= seq!['+'] + lowered("nan"@));
    assert((seq!['-'] + "inf"@).skip(1) =~= "inf"@);
    assert((seq!['+'] + "nan"@).skip(1) =~= "nan"@);
}

} // verus!
