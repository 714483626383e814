//! Number literals: decimal integers, their canonical rendering, and the
//! grammar of floating-point literals.
use crate::text::{chars_of, push_char};
use vstd::prelude::*;

verus! {

/// The ten decimal digits, `0` to `9`.
pub open spec fn is_digit(c: char) -> bool {
    0x30 <= c as u32 <= 0x39
}

/// The number that a decimal digit denotes.
pub open spec fn digit_value(c: char) -> nat {
    (c as u32 - 0x30) as nat
}

/// The two signs, `+` and `-`.
pub open spec fn is_sign(c: char) -> bool {
    c == '+' || c == '-'
}

/// Whether a text holds nothing but decimal digits.
pub open spec fn all_digits(s: Seq<char>) -> bool {
    forall|i: int| 0 <= i < s.len() ==> is_digit(#[trigger] s[i])
}

/// The number that a sequence of decimal digits denotes, most significant
/// digit first. The empty sequence denotes zero.
pub open spec fn digits_value(s: Seq<char>) -> nat
    decreases s.len(),
{
    if s.len() == 0 {
        0
    } else {
        digits_value(s.drop_last()) * 10 + digit_value(s.last())
    }
}

/// The integer that a literal denotes: an optional sign, then one or more
/// decimal digits, and nothing else. `None` where the text has another shape
/// or the number does not fit in 64 signed bits.
pub open spec fn int_literal(s: Seq<char>) -> Option<i64> {
    let negative = s.len() > 0 && s[0] == '-';
    let body = if s.len() > 0 && is_sign(s[0]) {
        s.skip(1)
    } else {
        s
    };
    let magnitude = digits_value(body) as int;
    let value = if negative {
        -magnitude
    } else {
        magnitude
    };
    if body.len() > 0 && all_digits(body) && i64::MIN <= value <= i64::MAX {
        Some(value as i64)
    } else {
        None
    }
}

/// One more digit at the end makes ten times the number, plus the digit.
pub proof fn lemma_digits_value_push(s: Seq<char>, c: char)
    ensures
        digits_value(s.push(c)) == digits_value(s) * 10 + digit_value(c),
{
    assert(s.push(c).drop_last() == s);
}

/// A longer digit sequence never denotes less than one of its prefixes.
pub proof fn lemma_digits_value_prefix(s: Seq<char>, n: int)
    requires
        0 <= n <= s.len(),
    ensures
        digits_value(s.take(n)) <= digits_value(s),
    decreases s.len(),
{
    if n == s.len() {
        assert(s.take(n) == s);
    } else {
        assert(s.drop_last().take(n) == s.take(n));
        lemma_digits_value_prefix(s.drop_last(), n);
    }
}

/// Whether a character is a decimal digit.
pub fn char_is_digit(c: char) -> (r: bool)
    ensures
        r == is_digit(c),
{
    let n: u32 = c as u32;
    0x30 <= n && n <= 0x39
}

/// Reads a decimal integer literal.
#[verifier::loop_isolation(false)]
pub fn parse_i64(s: &str) -> (r: Option<i64>)
    ensures
        r == int_literal(s@),
{
    let chars = chars_of(s);
    let n = chars.len();
    if n == 0 {
        return None;
    }
    let negative = chars[0] == '-';
    let start: usize = if chars[0] == '-' || chars[0] == '+' {
        1
    } else {
        0
    };
    if start == n {
        return None;
    }
    let limit: u64 = if negative {
        0x8000_0000_0000_0000
    } else {
        0x7fff_ffff_ffff_ffff
    };
    let ghost body = chars@.skip(start as int);
    let mut acc: u64 = 0;
    let mut i: usize = start;
    assert(body.take(0) == Seq::<char>::empty());
    while i < n
        invariant
            n == chars.len(),
            start <= i <= n,
            body == chars@.skip(start as int),
            all_digits(body.take(i - start)),
            acc == digits_value(body.take(i - start)),
            acc <= limit,
        decreases n - i,
    {
        let c = chars[i];
        let ghost k = i - start;
        assert(body[k] == c);
        if !char_is_digit(c) {
            return None;
        }
        let d: u64 = (c as u32 - 0x30) as u64;
        let next: u128 = acc as u128 * 10 + d as u128;
        proof {
            assert(body.take(k + 1) == body.take(k).push(c));
            lemma_digits_value_push(body.take(k), c);
            assert forall|j: int| 0 <= j < k + 1 implies is_digit(#[trigger] body.take(k + 1)[j]) by {
                if j < k {
                    assert(body.take(k + 1)[j] == body.take(k)[j]);
                }
            }
        }
        if next > limit as u128 {
            proof {
                lemma_digits_value_prefix(body, k + 1);
                assert(body == if s@.len() > 0 && is_sign(s@[0]) {
                    s@.skip(1)
                } else {
                    s@
                });
            }
            return None;
        }
        acc = next as u64;
        i += 1;
    }
    assert(body.take(n - start) == body);
    assert(body == if s@.len() > 0 && is_sign(s@[0]) {
        s@.skip(1)
    } else {
        s@
    });
    if negative {
        if acc == 0x8000_0000_0000_0000 {
            Some(i64::MIN)
        } else {
            Some(-(acc as i64))
        }
    } else {
        Some(acc as i64)
    }
}

/// The character that stands for a digit below ten.
pub open spec fn digit_char(d: nat) -> char {
    if d == 0 {
        '0'
    } else if d == 1 {
        '1'
    } else if d == 2 {
        '2'
    } else if d == 3 {
        '3'
    } else if d == 4 {
        '4'
    } else if d == 5 {
        '5'
    } else if d == 6 {
        '6'
    } else if d == 7 {
        '7'
    } else if d == 8 {
        '8'
    } else {
        '9'
    }
}

/// The decimal rendering of a natural number, without leading zeros.
pub open spec fn decimal(n: nat) -> Seq<char>
    decreases n,
{
    if n < 10 {
        seq![digit_char(n)]
    } else {
        decimal(n / 10).push(digit_char(n % 10))
    }
}

/// The decimal rendering of an integer: a minus sign before the magnitude of
/// a negative number.
pub open spec fn signed_decimal(i: int) -> Seq<char> {
    if i < 0 {
        seq!['-'] + decimal((-i) as nat)
    } else {
        decimal(i as nat)
    }
}

fn digit_to_char(d: u64) -> (c: char)
    requires
        d < 10,
    ensures
        c == digit_char(d as nat),
{
    if d == 0 {
        '0'
    } else if d == 1 {
        '1'
    } else if d == 2 {
        '2'
    } else if d == 3 {
        '3'
    } else if d == 4 {
        '4'
    } else if d == 5 {
        '5'
    } else if d == 6 {
        '6'
    } else if d == 7 {
        '7'
    } else if d == 8 {
        '8'
    } else {
        '9'
    }
}

fn push_decimal(out: &mut String, n: u64)
    ensures
        final(out)@ == old(out)@ + decimal(n as nat),
    decreases n,
{
    if n >= 10 {
        push_decimal(out, n / 10);
    }
    push_char(out, digit_to_char(n % 10));
}

/// Renders an unsigned number in decimal.
pub fn u64_to_string(n: u64) -> (r: String)
    ensures
        r@ == decimal(n as nat),
{
    let mut out = String::new();
    push_decimal(&mut out, n);
    assert(Seq::<char>::empty() + decimal(n as nat) == decimal(n as nat));
    out
}

/// Renders a signed number in decimal.
pub fn i64_to_string(i: i64) -> (r: String)
    ensures
        r@ == signed_decimal(i as int),
{
    let mut out = String::new();
    if i < 0 {
        let magnitude: u64 = if i == i64::MIN {
            0x8000_0000_0000_0000
        } else {
            (-i) as u64
        };
        push_char(&mut out, '-');
        push_decimal(&mut out, magnitude);
        assert(Seq::<char>::empty().push('-') == seq!['-']);
    } else {
        push_decimal(&mut out, i as u64);
        assert(Seq::<char>::empty() + decimal(i as nat) == decimal(i as nat));
    }
    out
}

/// The number of decimal digits that `s` starts with.
pub open spec fn digits_len(s: Seq<char>) -> nat
    decreases s.len(),
{
    if s.len() == 0 || !is_digit(s[0]) {
        0
    } else {
        1 + digits_len(s.drop_first())
    }
}

/// Whether `s` spells a word letter by letter, each letter in either case.
/// The word is given twice, in lowercase and in uppercase.
pub open spec fn spells(s: Seq<char>, lower: Seq<char>, upper: Seq<char>) -> bool {
    &&& s.len() == lower.len()
    &&& s.len() == upper.len()
    &&& forall|i: int| 0 <= i < s.len() ==> s[i] == lower[i] || s[i] == upper[i]
}

/// The names of the doubles that are not numbers: infinity and not-a-number.
pub open spec fn is_float_word(s: Seq<char>) -> bool {
    spells(s, "inf"@, "INF"@) || spells(s, "infinity"@, "INFINITY"@) || spells(s, "nan"@, "NAN"@)
}

/// An exponent: the letter `e` in either case, an optional sign, then one or
/// more digits to the end of the text.
pub open spec fn is_exponent(s: Seq<char>) -> bool {
    &&& s.len() >= 2
    &&& (s[0] == 'e' || s[0] == 'E')
    &&& {
        let digits = if is_sign(s[1]) {
            s.skip(2)
        } else {
            s.skip(1)
        };
        digits.len() > 0 && all_digits(digits)
    }
}

/// An unsigned decimal number: digits with at most one point among them and
/// at least one digit in all, then an optional exponent.
pub open spec fn is_float_number(s: Seq<char>) -> bool {
    let whole = digits_len(s) as int;
    let pointed = whole < s.len() && s[whole] == '.';
    let fraction = if pointed {
        digits_len(s.skip(whole + 1)) as int
    } else {
        0
    };
    let end = if pointed {
        whole + 1 + fraction
    } else {
        whole
    };
    whole + fraction >= 1 && (end == s.len() || is_exponent(s.skip(end)))
}

/// The grammar of a floating-point literal: an optional sign, then either a
/// decimal number or the name of infinity or of not-a-number.
pub open spec fn is_float_literal(s: Seq<char>) -> bool {
    let body = if s.len() > 0 && is_sign(s[0]) {
        s.skip(1)
    } else {
        s
    };
    is_float_word(body) || is_float_number(body)
}

/// A run of digits that ends at another character or at the end of the text
/// is the run of digits the text starts with.
pub proof fn lemma_digits_len_is(s: Seq<char>, n: int)
    requires
        0 <= n <= s.len(),
        forall|i: int| 0 <= i < n ==> is_digit(#[trigger] s[i]),
        n < s.len() ==> !is_digit(s[n]),
    ensures
        digits_len(s) == n,
    decreases s.len(),
{
    if n > 0 {
        let t = s.drop_first();
        assert(is_digit(s[0]));
        assert forall|i: int| 0 <= i < n - 1 implies is_digit(#[trigger] t[i]) by {
            assert(t[i] == s[i + 1]);
        }
        lemma_digits_len_is(t, n - 1);
    }
}

fn count_digits(chars: &Vec<char>, from: usize) -> (r: usize)
    requires
        from <= chars.len(),
    ensures
        r == digits_len(chars@.skip(from as int)),
        from + r <= chars.len(),
{
    let ghost rest = chars@.skip(from as int);
    let mut end: usize = from;
    while end < chars.len() && char_is_digit(chars[end])
        invariant
            from <= end <= chars.len(),
            rest == chars@.skip(from as int),
            forall|k: int| 0 <= k < end - from ==> is_digit(#[trigger] rest[k]),
        decreases chars.len() - end,
    {
        assert(rest[end - from] == chars@[end as int]);
        end += 1;
    }
    proof {
        if end < chars.len() {
            assert(rest[end - from] == chars@[end as int]);
        }
        lemma_digits_len_is(rest, end - from);
    }
    end - from
}

fn all_digits_from(chars: &Vec<char>, from: usize) -> (r: bool)
    requires
        from <= chars.len(),
    ensures
        r == all_digits(chars@.skip(from as int)),
{
    let ghost rest = chars@.skip(from as int);
    let mut i: usize = from;
    while i < chars.len()
        invariant
            from <= i <= chars.len(),
            rest == chars@.skip(from as int),
            forall|k: int| 0 <= k < i - from ==> is_digit(#[trigger] rest[k]),
        decreases chars.len() - i,
    {
        if !char_is_digit(chars[i]) {
            assert(rest[i - from] == chars@[i as int]);
            return false;
        }
        assert(rest[i - from] == chars@[i as int]);
        i += 1;
    }
    true
}

fn spells_from(chars: &Vec<char>, from: usize, lower: &str, upper: &str) -> (r: bool)
    requires
        from <= chars.len(),
    ensures
        r == spells(chars@.skip(from as int), lower@, upper@),
{
    let low = chars_of(lower);
    let up = chars_of(upper);
    let ghost rest = chars@.skip(from as int);
    if chars.len() - from != low.len() || low.len() != up.len() {
        return false;
    }
    let mut i: usize = 0;
    while i < low.len()
        invariant
            from <= chars.len(),
            rest == chars@.skip(from as int),
            low@ == lower@,
            up@ == upper@,
            rest.len() == low.len(),
            low.len() == up.len(),
            i <= low.len(),
            forall|k: int| 0 <= k < i ==> rest[k] == low@[k] || rest[k] == up@[k],
        decreases low.len() - i,
    {
        let c = chars[from + i];
        assert(rest[i as int] == c);
        if c != low[i] && c != up[i] {
            return false;
        }
        i += 1;
    }
    true
}

fn is_exponent_from(chars: &Vec<char>, from: usize) -> (r: bool)
    requires
        from <= chars.len(),
    ensures
        r == is_exponent(chars@.skip(from as int)),
{
    let ghost rest = chars@.skip(from as int);
    if chars.len() - from < 2 {
        return false;
    }
    assert(rest[0] == chars@[from as int]);
    assert(rest[1] == chars@[from + 1]);
    if chars[from] != 'e' && chars[from] != 'E' {
        return false;
    }
    let digits: usize = if chars[from + 1] == '+' || chars[from + 1] == '-' {
        from + 2
    } else {
        from + 1
    };
    assert(rest.skip(digits - from) == chars@.skip(digits as int));
    digits < chars.len() && all_digits_from(chars, digits)
}

fn is_float_number_from(chars: &Vec<char>, from: usize) -> (r: bool)
    requires
        from <= chars.len(),
    ensures
        r == is_float_number(chars@.skip(from as int)),
{
    let ghost rest = chars@.skip(from as int);
    let whole = count_digits(chars, from);
    let point = from + whole;
    let pointed = point < chars.len() && chars[point] == '.';
    if point < chars.len() {
        assert(rest[whole as int] == chars@[point as int]);
    }
    let fraction: usize = if pointed {
        assert(rest.skip(whole + 1) == chars@.skip(point + 1));
        count_digits(chars, point + 1)
    } else {
        0
    };
    let end: usize = if pointed {
        point + 1 + fraction
    } else {
        point
    };
    assert(rest.skip(end - from) == chars@.skip(end as int));
    whole + fraction >= 1 && (end == chars.len() || is_exponent_from(chars, end))
}

/// Whether a text is a floating-point literal.
pub fn is_float(s: &str) -> (r: bool)
    ensures
        r == is_float_literal(s@),
{
    let chars = chars_of(s);
    let from: usize = if chars.len() > 0 && (chars[0] == '+' || chars[0] == '-') {
        1
    } else {
        0
    };
    assert(chars@.skip(0) == chars@);
    spells_from(&chars, from, "inf", "INF") || spells_from(&chars, from, "infinity", "INFINITY")
        || spells_from(&chars, from, "nan", "NAN") || is_float_number_from(&chars, from)
}

/// The character of a digit is a digit and denotes it.
pub proof fn lemma_digit_char_denotes(d: nat)
    requires
        d < 10,
    ensures
        is_digit(digit_char(d)),
        digit_value(digit_char(d)) == d,
{
}

/// The rendering of a number is made of digits, at least one, and denotes
/// the number.
pub proof fn lemma_decimal_denotes(n: nat)
    ensures
        decimal(n).len() > 0,
        all_digits(decimal(n)),
        digits_value(decimal(n)) == n,
    decreases n,
{
    lemma_digit_char_denotes(n % 10);
    if n < 10 {
        assert(decimal(n).drop_last() == Seq::<char>::empty());
        assert(digits_value(Seq::<char>::empty()) == 0);
        assert(decimal(n).last() == digit_char(n));
    } else {
        lemma_decimal_denotes(n / 10);
        lemma_digits_value_push(decimal(n / 10), digit_char(n % 10));
    }
}

/// An integer is read back from its rendering: the text that renders a
/// number of 64 signed bits is a literal of that number.
pub proof fn lemma_int_literal_of_rendering(i: i64)
    ensures
        int_literal(signed_decimal(i as int)) == Some(i),
{
    let s = signed_decimal(i as int);
    if i < 0 {
        let magnitude = (-i) as nat;
        lemma_decimal_denotes(magnitude);
        assert(s.skip(1) == decimal(magnitude));
    } else {
        lemma_decimal_denotes(i as nat);
        assert(is_digit(s[0]));
    }
}

} // verus!
