//! Decimal numbers in text, read as fixed-point integers.
//!
//! A number is an optional sign, then digits with at most one decimal
//! point among them, before them or behind them, and at least one digit.
//! There is no exponent and no blank.

use vstd::prelude::*;
use vstd::string::*;

verus! {

/// Whether `c` is one of the ten ASCII digits.
pub open spec fn is_digit(c: char) -> bool {
    '0' <= c <= '9'
}

/// The number that the digit `c` stands for.
pub open spec fn digit_value(c: char) -> int {
    c as int - '0' as int
}

/// Whether `s` holds digits only.
pub open spec fn all_digits(s: Seq<char>) -> bool {
    forall|i: int| 0 <= i < s.len() ==> is_digit(#[trigger] s[i])
}

/// The number that a sequence of digits denotes in base ten; 0 for the
/// empty sequence.
pub open spec fn digits_value(s: Seq<char>) -> int
    decreases s.len(),
{
    if s.len() == 0 {
        0
    } else {
        digits_value(s.drop_last()) * 10 + digit_value(s.last())
    }
}

/// Number of digits that `s` begins with.
pub open spec fn digit_run(s: Seq<char>) -> nat
    decreases s.len(),
{
    if s.len() > 0 && is_digit(s[0]) {
        1 + digit_run(s.drop_first())
    } else {
        0
    }
}

/// Whether `s` begins with a sign.
pub open spec fn has_sign(s: Seq<char>) -> bool {
    s.len() > 0 && (s[0] == '+' || s[0] == '-')
}

/// Whether `s` begins with a minus sign.
pub open spec fn is_negative(s: Seq<char>) -> bool {
    s.len() > 0 && s[0] == '-'
}

/// `s` without its sign.
pub open spec fn unsigned_part(s: Seq<char>) -> Seq<char> {
    if has_sign(s) {
        s.drop_first()
    } else {
        s
    }
}

/// The digits of the unsigned number `body` before its point.
pub open spec fn whole_digits(body: Seq<char>) -> Seq<char> {
    body.take(digit_run(body) as int)
}

/// What follows the first character of `body` that is not a digit.
pub open spec fn fraction_digits(body: Seq<char>) -> Seq<char> {
    if digit_run(body) < body.len() {
        body.skip(digit_run(body) as int + 1)
    } else {
        Seq::empty()
    }
}

/// The first `places` digits of `fraction`, with zeros where it has none.
pub open spec fn padded(fraction: Seq<char>, places: nat) -> Seq<char> {
    Seq::new(
        places,
        |i: int|
            if i < fraction.len() {
                fraction[i]
            } else {
                '0'
            },
    )
}

/// Whether `s` is a number.
pub open spec fn is_decimal(s: Seq<char>) -> bool {
    let body = unsigned_part(s);
    let run = digit_run(body) as int;
    &&& run == body.len() || body[run] == '.'
    &&& all_digits(fraction_digits(body))
    &&& whole_digits(body).len() + fraction_digits(body).len() > 0
}

/// The number `s` in units of `10^-places`, with the digits beyond
/// `places` behind the point cut off; `None` if `s` is no number.
pub open spec fn decimal_value(s: Seq<char>, places: nat) -> Option<int> {
    if is_decimal(s) {
        let body = unsigned_part(s);
        let magnitude = digits_value(whole_digits(body) + padded(fraction_digits(body), places));
        Some(
            if is_negative(s) {
                -magnitude
            } else {
                magnitude
            },
        )
    } else {
        None
    }
}

/// `value` as an `i64`, if it is one.
pub open spec fn as_i64(value: Option<int>) -> Option<i64> {
    match value {
        Some(v) if i64::MIN <= v <= i64::MAX => Some(v as i64),
        _ => None,
    }
}

/// The characters that `s` begins with, up to position `digit_run(s)`, are
/// digits, and the character at that position, if there is one, is none.
pub proof fn lemma_digit_run(s: Seq<char>)
    ensures
        digit_run(s) <= s.len(),
        forall|j: int| 0 <= j < digit_run(s) ==> is_digit(#[trigger] s[j]),
        digit_run(s) < s.len() ==> !is_digit(s[digit_run(s) as int]),
    decreases s.len(),
{
    if s.len() > 0 && is_digit(s[0]) {
        let rest = s.drop_first();
        lemma_digit_run(rest);
        assert forall|j: int| 0 <= j < digit_run(s) implies is_digit(#[trigger] s[j]) by {
            if j > 0 {
                assert(s[j] == rest[j - 1]);
            }
        }
        if digit_run(s) < s.len() {
            assert(s[digit_run(s) as int] == rest[digit_run(rest) as int]);
        }
    }
}

/// A position that only digits come before, and no digit stands at, is
/// where the digits that `s` begins with end.
proof fn lemma_digit_run_ends_at(s: Seq<char>, p: int)
    requires
        0 <= p <= s.len(),
        forall|j: int| 0 <= j < p ==> is_digit(#[trigger] s[j]),
        p < s.len() ==> !is_digit(s[p]),
    ensures
        digit_run(s) == p,
{
    lemma_digit_run(s);
    let run = digit_run(s) as int;
    if run < p {
        assert(is_digit(s[run]));
    } else if run > p {
        assert(is_digit(s[p]));
    }
}

/// A number is written in ASCII.
proof fn lemma_decimal_is_ascii(s: Seq<char>)
    requires
        is_decimal(s),
    ensures
        vstd::utf8::is_ascii_chars(s),
{
    let body = unsigned_part(s);
    let run = digit_run(body) as int;
    let offset: int = if has_sign(s) {
        1
    } else {
        0
    };
    lemma_digit_run(body);
    assert forall|k: int| 0 <= k < s.len() implies '\0' <= #[trigger] s[k] <= '\u{7f}' by {
        if k >= offset {
            let j = k - offset;
            assert(body[j] == s[k]);
            if j < run {
                assert(is_digit(body[j]));
            } else if j > run {
                assert(fraction_digits(body)[j - run - 1] == body[j]);
                assert(is_digit(fraction_digits(body)[j - run - 1]));
            }
        }
    }
}

/// Each byte is the code of the character at its position.
spec fn mirrors(bytes: Seq<u8>, s: Seq<char>) -> bool {
    &&& bytes.len() == s.len()
    &&& forall|k: int| 0 <= k < s.len() ==> #[trigger] bytes[k] as int == s[k] as int
}

/// Limit of what a magnitude may reach and still have a place in `i64`
/// with one of the two signs.
spec fn ceiling() -> int {
    0x8000_0000_0000_0000
}

/// `value` is the number that the digits `acc` denote, or `big` says that
/// this number is beyond the ceiling.
spec fn tracks(value: u128, big: bool, acc: Seq<char>) -> bool {
    &&& all_digits(acc)
    &&& digits_value(acc) >= 0
    &&& if big {
        digits_value(acc) > ceiling()
    } else {
        value == digits_value(acc) && value <= ceiling()
    }
}

/// Appends the digit `c` to the number read so far.
fn extend(value: u128, big: bool, digit: u8, Ghost(acc): Ghost<Seq<char>>, Ghost(c): Ghost<char>) -> (next:
    (u128, bool))
    requires
        tracks(value, big, acc),
        is_digit(c),
        digit == digit_value(c),
    ensures
        tracks(next.0, next.1, acc.push(c)),
{
    proof {
        assert(acc.push(c).drop_last() =~= acc);
    }
    if big {
        (value, true)
    } else {
        let grown: u128 = value * 10 + digit as u128;
        if grown > 0x8000_0000_0000_0000 {
            (grown, true)
        } else {
            (grown, false)
        }
    }
}

/// Reads `text` as a number and gives it in units of `10^-places`. Digits
/// beyond `places` behind the point are cut off. The result is `None` when
/// `text` is no number or when the value has no place in an `i64`.
pub fn parse_decimal(text: &str, places: u8) -> (value: Option<i64>)
    ensures
        value == as_i64(decimal_value(text@, places as nat)),
{
    let ghost s = text@;
    if !text.is_ascii() {
        proof {
            if is_decimal(s) {
                lemma_decimal_is_ascii(s);
            }
        }
        return None;
    }
    let bytes = text.as_bytes();
    proof {
        is_ascii_spec_bytes(text);
        assert(bytes@.len() == s.len());
        assert forall|k: int| 0 <= k < s.len() implies #[trigger] bytes@[k] as int == s[k] as int by {
            assert('\0' <= s[k] <= '\u{7f}');
            assert(bytes@[k] == s[k] as u8);
        }
        assert(mirrors(bytes@, s));
    }
    let n = bytes.len();
    let negative = n > 0 && bytes[0] == 45;
    let start: usize = if n > 0 && (bytes[0] == 43 || bytes[0] == 45) {
        1
    } else {
        0
    };
    let ghost body = unsigned_part(s);
    assert(body =~= s.skip(start as int));
    let mut i: usize = start;
    let mut value: u128 = 0;
    let mut big = false;
    let ghost mut acc: Seq<char> = Seq::empty();
    while i < n && 48 <= bytes[i] && bytes[i] <= 57
        invariant
            start <= i <= n,
            n == s.len(),
            mirrors(bytes@, s),
            body == s.skip(start as int),
            acc == body.take(i - start),
            tracks(value, big, acc),
        decreases n - i,
    {
        let ghost c = s[i as int];
        assert(bytes@[i as int] as int == c as int);
        assert(body[i - start] == c);
        assert(body.take(i - start).push(c) =~= body.take(i + 1 - start));
        let next = extend(value, big, bytes[i] - 48, Ghost(acc), Ghost(c));
        value = next.0;
        big = next.1;
        proof {
            acc = acc.push(c);
        }
        i = i + 1;
    }
    let run: usize = i - start;
    proof {
        assert forall|j: int| 0 <= j < run implies is_digit(#[trigger] body[j]) by {
            assert(body[j] == acc[j]);
        }
        if run < body.len() {
            assert(body[run as int] == s[i as int]);
            assert(bytes@[i as int] as int == s[i as int] as int);
        }
        lemma_digit_run_ends_at(body, run as int);
        assert(whole_digits(body) == acc);
    }
    let ghost whole = acc;
    let ghost fraction = fraction_digits(body);
    let mut taken: u8 = 0;
    let mut fraction_len: usize = 0;
    if i < n {
        if bytes[i] != 46 {
            assert(bytes@[i as int] as int == s[i as int] as int);
            assert(body[run as int] != '.');
            return None;
        }
        i = i + 1;
        let first: usize = i;
        assert(fraction =~= s.skip(first as int));
        while i < n && 48 <= bytes[i] && bytes[i] <= 57
            invariant
                first <= i <= n,
                n == s.len(),
                mirrors(bytes@, s),
                fraction == s.skip(first as int),
                forall|k: int| 0 <= k < i - first ==> is_digit(#[trigger] fraction[k]),
                taken <= places,
                taken == if i - first < places {
                    i - first
                } else {
                    places as int
                },
                acc == whole + padded(fraction, places as nat).take(taken as int),
                tracks(value, big, acc),
            decreases n - i,
        {
            let ghost c = s[i as int];
            assert(bytes@[i as int] as int == c as int);
            assert(fraction[i - first] == c);
            if taken < places {
                assert(padded(fraction, places as nat)[taken as int] == c);
                assert(acc.push(c) =~= whole + padded(fraction, places as nat).take(taken + 1));
                let next = extend(value, big, bytes[i] - 48, Ghost(acc), Ghost(c));
                value = next.0;
                big = next.1;
                proof {
                    acc = acc.push(c);
                }
                taken = taken + 1;
            }
            i = i + 1;
        }
        if i < n {
            assert(bytes@[i as int] as int == s[i as int] as int);
            assert(fraction[i - first] == s[i as int]);
            assert(!is_digit(fraction[i - first]));
            return None;
        }
        fraction_len = n - first;
        assert(all_digits(fraction));
    } else {
        assert(acc =~= whole + padded(fraction, places as nat).take(0));
    }
    assert(fraction.len() == fraction_len);
    if run == 0 && fraction_len == 0 {
        return None;
    }
    assert(is_decimal(s));
    while taken < places
        invariant
            taken <= places,
            fraction.len() <= taken || taken == places,
            acc == whole + padded(fraction, places as nat).take(taken as int),
            tracks(value, big, acc),
        decreases places - taken,
    {
        assert(padded(fraction, places as nat)[taken as int] == '0');
        assert(acc.push('0') =~= whole + padded(fraction, places as nat).take(taken + 1));
        let next = extend(value, big, 0, Ghost(acc), Ghost('0'));
        value = next.0;
        big = next.1;
        proof {
            acc = acc.push('0');
        }
        taken = taken + 1;
    }
    assert(padded(fraction, places as nat).take(places as int) =~= padded(fraction, places as nat));
    assert(n > 0 ==> bytes@[0] as int == s[0] as int);
    assert(is_negative(s) == negative);
    if big {
        None
    } else if negative {
        if value == 0x8000_0000_0000_0000 {
            Some(i64::MIN)
        } else {
            Some(-(value as i64))
        }
    } else if value == 0x8000_0000_0000_0000 {
        None
    } else {
        Some(value as i64)
    }
}

} // verus!
