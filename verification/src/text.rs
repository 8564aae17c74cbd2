use vstd::prelude::*;
use vstd::string::StringExecFns;

verus! {

/// What `str::to_lowercase` returns for a text.
pub uninterp spec fn lowercase_of(text: Seq<char>) -> Seq<char>;

/// `str::to_lowercase`: the lower-case form of `s`, which depends on `s` alone.
#[verifier::external_body]
pub(crate) fn to_lowercase(s: &str) -> (lower: String)
    ensures
        lower@ == lowercase_of(s@),
{
    s.to_lowercase()
}

/// Whether a character is one of the ten decimal digits.
pub open spec fn is_digit(c: char) -> bool {
    48 <= c as u32 <= 57
}

/// Whether a text holds decimal digits only.
pub open spec fn all_digits(text: Seq<char>) -> bool {
    forall|i: int| 0 <= i < text.len() ==> is_digit(#[trigger] text[i])
}

/// The number that a run of decimal digits spells.
pub open spec fn digits_value(digits: Seq<char>) -> nat
    decreases digits.len(),
{
    if digits.len() == 0 {
        0
    } else {
        digits_value(digits.drop_last()) * 10 + (digits.last() as u32 - 48) as nat
    }
}

/// The unsigned 64-bit number that a run of digits spells: one or more
/// decimal digits and nothing else, the number being no greater than the
/// largest `u64`.
pub open spec fn digits_u64(digits: Seq<char>) -> Option<u64> {
    if digits.len() > 0 && all_digits(digits) && digits_value(digits) <= u64::MAX {
        Some(digits_value(digits) as u64)
    } else {
        None
    }
}

/// The unsigned 64-bit number that a text spells: an optional `+`, then a run
/// of digits that spells one.
pub open spec fn decimal_u64(text: Seq<char>) -> Option<u64> {
    if text.len() > 0 && text[0] == '+' {
        digits_u64(text.skip(1))
    } else {
        digits_u64(text)
    }
}

/// A text with a character that is no digit is no number, unless the
/// character is a `+` at the front.
pub proof fn non_digit_is_no_number(text: Seq<char>, i: int)
    requires
        0 <= i < text.len(),
        !is_digit(text[i]),
        i > 0 || text[0] != '+',
    ensures
        decimal_u64(text) is None,
{
    if text[0] == '+' {
        let digits = text.skip(1);
        assert(digits[i - 1] == text[i]);
        assert(!all_digits(digits));
    } else {
        assert(!all_digits(text));
    }
}

/// The empty text and a lone `+` are no numbers.
pub proof fn no_digits_is_no_number(text: Seq<char>)
    requires
        text.len() == 0 || (text.len() == 1 && text[0] == '+'),
    ensures
        decimal_u64(text) is None,
{
}

/// The number that a run of digits spells is no smaller than the number that
/// any prefix of it spells.
proof fn lemma_value_grows(digits: Seq<char>, k: int)
    requires
        0 <= k <= digits.len(),
    ensures
        digits_value(digits.take(k)) <= digits_value(digits),
    decreases digits.len(),
{
    if k < digits.len() {
        lemma_value_grows(digits.drop_last(), k);
        assert(digits.drop_last().take(k) =~= digits.take(k));
    } else {
        assert(digits.take(k) =~= digits);
    }
}

/// Reads an unsigned 64-bit number from its decimal digits, as
/// `str::parse::<u64>` does: an optional `+` may stand before the digits, and
/// any other character, an empty run of digits and a number too large for
/// `u64` give `None`.
pub fn parse_u64(s: &str) -> (n: Option<u64>)
    ensures
        n == decimal_u64(s@),
{
    let len: usize = s.unicode_len();
    let start: usize = if len > 0 && s.get_char(0) == '+' {
        1
    } else {
        0
    };
    if start >= len {
        return None;
    }
    let ghost digits = s@.skip(start as int);
    assert(s@.skip(0) =~= s@);
    assert(decimal_u64(s@) == digits_u64(digits));
    let mut value: u64 = 0;
    let mut i: usize = start;
    assert(digits.take(0) =~= Seq::<char>::empty());
    while i < len
        invariant
            start <= i <= len,
            len == s@.len(),
            digits == s@.skip(start as int),
            decimal_u64(s@) == digits_u64(digits),
            all_digits(digits.take(i - start)),
            value == digits_value(digits.take(i - start)),
        decreases len - i,
    {
        let c: char = s.get_char(i);
        let code: u32 = c as u32;
        let ghost seen = digits.take(i - start);
        let ghost next = digits.take(i - start + 1);
        assert(next.drop_last() =~= seen);
        assert(next.last() == c);
        if code < 48 || code > 57 {
            assert(digits[i - start] == c);
            return None;
        }
        let d: u64 = (code - 48) as u64;
        if value > (u64::MAX - d) / 10 {
            proof {
                lemma_value_grows(digits, i - start + 1);
            }
            return None;
        }
        value = value * 10 + d;
        assert forall|j: int| 0 <= j < next.len() implies is_digit(#[trigger] next[j]) by {
            if j < seen.len() {
                assert(next[j] == seen[j]);
            }
        }
        i += 1;
    }
    assert(digits.take(len - start) =~= digits);
    Some(value)
}

/// The decimal digit for a number below ten.
pub open spec fn digit_char(d: nat) -> char {
    ((48 + d) as u8) as char
}

/// The decimal digits of a number, without leading zeros.
pub open spec fn decimal_text(n: nat) -> Seq<char>
    decreases n,
{
    if n < 10 {
        seq![digit_char(n)]
    } else {
        decimal_text(n / 10).push(digit_char(n % 10))
    }
}

/// The text of one decimal digit.
fn digit_text(d: u64) -> (text: &'static str)
    requires
        d < 10,
    ensures
        text@ == seq![digit_char(d as nat)],
{
    proof {
        reveal_strlit("0");
        reveal_strlit("1");
        reveal_strlit("2");
        reveal_strlit("3");
        reveal_strlit("4");
        reveal_strlit("5");
        reveal_strlit("6");
        reveal_strlit("7");
        reveal_strlit("8");
        reveal_strlit("9");
    }
    let text: &'static str = if d == 0 {
        "0"
    } else if d == 1 {
        "1"
    } else if d == 2 {
        "2"
    } else if d == 3 {
        "3"
    } else if d == 4 {
        "4"
    } else if d == 5 {
        "5"
    } else if d == 6 {
        "6"
    } else if d == 7 {
        "7"
    } else if d == 8 {
        "8"
    } else {
        "9"
    };
    assert(text@ =~= seq![digit_char(d as nat)]);
    text
}

/// The decimal digits of a number, without sign or leading zeros.
pub fn unsigned_text(n: u64) -> (text: String)
    ensures
        text@ == decimal_text(n as nat),
    decreases n,
{
    if n < 10 {
        String::from_str(digit_text(n))
    } else {
        let mut text = unsigned_text(n / 10);
        let ghost before = text@;
        text.append(digit_text(n % 10));
        assert(text@ =~= before.push(digit_char((n % 10) as nat)));
        text
    }
}

/// Lexical order on texts, from position `i` on: the first position where the
/// two differ decides, and a proper prefix comes first.
pub open spec fn lex_less_from(a: Seq<char>, b: Seq<char>, i: int) -> bool
    decreases a.len() - i,
{
    if i < 0 || i >= b.len() {
        false
    } else if i >= a.len() {
        true
    } else if a[i] != b[i] {
        (a[i] as u32) < (b[i] as u32)
    } else {
        lex_less_from(a, b, i + 1)
    }
}

/// Lexical order on texts.
pub open spec fn lex_less(a: Seq<char>, b: Seq<char>) -> bool {
    lex_less_from(a, b, 0)
}

/// Of two texts that agree before position `i`, one comes before the other
/// from there on unless they are the same text.
pub proof fn lex_order_is_total_from(a: Seq<char>, b: Seq<char>, i: int)
    requires
        0 <= i <= a.len(),
        i <= b.len(),
        forall|j: int| 0 <= j < i ==> a[j] == b[j],
    ensures
        lex_less_from(a, b, i) == !(lex_less_from(b, a, i) || a == b),
    decreases a.len() - i,
{
    if i < a.len() && i < b.len() {
        if a[i] == b[i] {
            lex_order_is_total_from(a, b, i + 1);
        } else {
            vstd::utf8::char_u32_cast(a[i], a[i] as u32);
            vstd::utf8::char_u32_cast(b[i], b[i] as u32);
        }
    } else if a.len() == b.len() {
        assert(a =~= b);
    }
}

/// Lexical order is total: of two different texts exactly one comes first,
/// and no text comes before itself.
pub proof fn lex_order_is_total(a: Seq<char>, b: Seq<char>)
    ensures
        lex_less(a, b) == !(lex_less(b, a) || a == b),
{
    lex_order_is_total_from(a, b, 0);
}

/// Whether `a` comes before `b` in lexical order.
pub fn text_less(a: &str, b: &str) -> (less: bool)
    ensures
        less == lex_less(a@, b@),
{
    let n: usize = a.unicode_len();
    let m: usize = b.unicode_len();
    let mut i: usize = 0;
    while i < n && i < m
        invariant
            n == a@.len(),
            m == b@.len(),
            i <= n,
            i <= m,
            lex_less(a@, b@) == lex_less_from(a@, b@, i as int),
        decreases n - i,
    {
        let c: char = a.get_char(i);
        let d: char = b.get_char(i);
        if c != d {
            return (c as u32) < (d as u32);
        }
        i += 1;
    }
    i < m
}

pub const DOUBLE_MAGNITUDE: u64 = 0x7fff_ffff_ffff_ffff;

pub const DOUBLE_INFINITY: u64 = 0x7ff0_0000_0000_0000;

/// Whether a binary64 bit pattern is a NaN.
pub open spec fn double_is_nan(bits: u64) -> bool {
    (bits & DOUBLE_MAGNITUDE) > DOUBLE_INFINITY
}

/// The place of a binary64 bit pattern (no NaN) on the number line: patterns
/// compare as their numbers do, and the two zeros share one place.
pub open spec fn double_rank(bits: u64) -> int {
    if bits == (bits & DOUBLE_MAGNITUDE) {
        (bits & DOUBLE_MAGNITUDE) as int
    } else {
        -((bits & DOUBLE_MAGNITUDE) as int)
    }
}

/// Numeric equality of two doubles: a NaN equals nothing.
pub open spec fn double_eq(a: u64, b: u64) -> bool {
    !double_is_nan(a) && !double_is_nan(b) && double_rank(a) == double_rank(b)
}

/// Numeric order of two doubles: a NaN is neither before nor after anything.
pub open spec fn double_lt(a: u64, b: u64) -> bool {
    !double_is_nan(a) && !double_is_nan(b) && double_rank(a) < double_rank(b)
}

/// Whether the double `a` equals the double `b` as a number.
pub fn doubles_equal(a: u64, b: u64) -> (r: bool)
    ensures
        r == double_eq(a, b),
{
    let ma: u64 = a & DOUBLE_MAGNITUDE;
    let mb: u64 = b & DOUBLE_MAGNITUDE;
    if ma > DOUBLE_INFINITY || mb > DOUBLE_INFINITY {
        false
    } else if (a == ma) == (b == mb) {
        ma == mb
    } else {
        ma == 0 && mb == 0
    }
}

/// Whether the double `a` is less than the double `b` as a number.
pub fn doubles_less(a: u64, b: u64) -> (r: bool)
    ensures
        r == double_lt(a, b),
{
    let ma: u64 = a & DOUBLE_MAGNITUDE;
    let mb: u64 = b & DOUBLE_MAGNITUDE;
    if ma > DOUBLE_INFINITY || mb > DOUBLE_INFINITY {
        false
    } else if a == ma {
        b == mb && ma < mb
    } else if b == mb {
        !(ma == 0 && mb == 0)
    } else {
        mb < ma
    }
}

} // verus!
