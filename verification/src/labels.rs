//! Text for axis ticks: volumes abbreviated with K, M and B, prices with two
//! decimals.

use crate::decimal::{
    all_digits, decimal_value, digit_run, digit_value, digits_value, fraction_digits, is_digit,
    lemma_digit_run, padded, whole_digits,
};
use vstd::prelude::*;
use vstd::string::*;

verus! {

/// The character of a decimal digit.
pub open spec fn digit_char(d: int) -> char {
    seq!['0', '1', '2', '3', '4', '5', '6', '7', '8', '9'][d]
}

/// The decimal notation of `n`, without leading zeros.
pub open spec fn decimal_text(n: nat) -> Seq<char>
    decreases n,
{
    if n < 10 {
        seq![digit_char(n as int)]
    } else {
        decimal_text(n / 10).push(digit_char((n % 10) as int))
    }
}

/// The notation of `tenths / 10` with one decimal.
pub open spec fn tenths_text(tenths: nat) -> Seq<char> {
    decimal_text(tenths / 10) + seq!['.', digit_char((tenths % 10) as int)]
}

/// The label of a volume: the number itself below a thousand, and above
/// it the thousands, millions or billions with one decimal, cut off, and
/// the letter K, M or B.
pub open spec fn volume_label(volume: nat) -> Seq<char> {
    if volume < 1_000 {
        decimal_text(volume)
    } else if volume < 1_000_000 {
        tenths_text(volume / 100).push('K')
    } else if volume < 1_000_000_000 {
        tenths_text(volume / 100_000).push('M')
    } else {
        tenths_text(volume / 100_000_000).push('B')
    }
}

/// The hundredths of a currency unit nearest to `price`, which is in
/// millionths; a half is rounded away from zero. The result is the
/// magnitude.
pub open spec fn nearest_cents(price: int) -> nat {
    if price < 0 {
        ((-price + 5_000) / 10_000) as nat
    } else {
        ((price + 5_000) / 10_000) as nat
    }
}

/// The notation of `hundredths / 100` with two decimals, with a minus sign
/// if the amount is negative and does not vanish.
pub open spec fn hundredths_text(negative: bool, hundredths: nat) -> Seq<char> {
    let sign = if negative && hundredths > 0 {
        seq!['-']
    } else {
        Seq::<char>::empty()
    };
    sign + decimal_text(hundredths / 100) + seq![
        '.',
        digit_char(((hundredths / 10) % 10) as int),
        digit_char((hundredths % 10) as int),
    ]
}

/// The label of a price, which is in millionths of a currency unit: the
/// nearest amount with two decimals, with a minus sign if it is below
/// zero.
pub open spec fn price_label(price: int) -> Seq<char> {
    hundredths_text(price < 0, nearest_cents(price))
}

/// The decimal notation of a number consists of digits, of which there is
/// at least one, and denotes the number.
pub proof fn lemma_decimal_text_denotes(n: nat)
    ensures
        decimal_text(n).len() > 0,
        all_digits(decimal_text(n)),
        digits_value(decimal_text(n)) == n,
    decreases n,
{
    let d = (n % 10) as int;
    assert(is_digit(digit_char(d)) && digit_value(digit_char(d)) == d);
    let text = decimal_text(n);
    assert(text.last() == digit_char(d));
    assert(digits_value(text) == digits_value(text.drop_last()) * 10 + digit_value(text.last()));
    if n >= 10 {
        lemma_decimal_text_denotes(n / 10);
        assert(text.drop_last() =~= decimal_text(n / 10));
    } else {
        assert(text.drop_last() =~= Seq::<char>::empty());
        assert(digits_value(text.drop_last()) == 0);
    }
}

/// The decimal notation of a number, read as a number in whole units, is
/// that number.
pub proof fn lemma_decimal_text_reads_back(n: nat)
    ensures
        decimal_value(decimal_text(n), 0) == Some(n as int),
{
    let text = decimal_text(n);
    lemma_decimal_text_denotes(n);
    lemma_digit_run(text);
    assert(is_digit(text[0]));
    if digit_run(text) < text.len() {
        assert(is_digit(text[digit_run(text) as int]));
    }
    assert(whole_digits(text) =~= text);
    assert(padded(fraction_digits(text), 0) =~= Seq::<char>::empty());
    assert(text + Seq::<char>::empty() =~= text);
}

/// The digit `d` as a text of one character.
fn digit_str(d: u8) -> (text: &'static str)
    requires
        d < 10,
    ensures
        text@ == seq![digit_char(d as int)],
{
    proof {
        reveal_strlit("0");
        reveal_strlit("1");
        reveal_strlit("2");
        reveal_strlit("3");
        reveal_strlit("4");
        reveal_strlit("5");
        reveal_strlit("6");
        reveal_strlit("7");
        reveal_strlit("8");
        reveal_strlit("9");
    }
    let text = match d {
        0 => "0",
        1 => "1",
        2 => "2",
        3 => "3",
        4 => "4",
        5 => "5",
        6 => "6",
        7 => "7",
        8 => "8",
        _ => "9",
    };
    assert(text@ =~= seq![digit_char(d as int)]);
    text
}

/// Appends the decimal notation of `n` to `out`.
pub fn push_decimal(out: &mut String, n: u128)
    ensures
        final(out)@ == old(out)@ + decimal_text(n as nat),
    decreases n,
{
    if n >= 10 {
        push_decimal(out, n / 10);
    }
    out.append(digit_str((n % 10) as u8));
    proof {
        if n >= 10 {
            assert(out@ =~= old(out)@ + decimal_text((n / 10) as nat).push(
                digit_char((n % 10) as int),
            ));
        } else {
            assert(out@ =~= old(out)@ + seq![digit_char(n as int)]);
        }
    }
}

/// Appends the notation of `tenths / 10` with one decimal to `out`.
fn push_tenths(out: &mut String, tenths: u128)
    ensures
        final(out)@ == old(out)@ + tenths_text(tenths as nat),
{
    push_decimal(out, tenths / 10);
    proof {
        reveal_strlit(".");
    }
    out.append(".");
    out.append(digit_str((tenths % 10) as u8));
    assert(out@ =~= old(out)@ + tenths_text(tenths as nat));
}

/// The label of a tick on the volume axis.
pub fn format_volume(volume: u64) -> (label: String)
    ensures
        label@ == volume_label(volume as nat),
{
    let mut label = String::new();
    proof {
        reveal_strlit("K");
        reveal_strlit("M");
        reveal_strlit("B");
    }
    if volume < 1_000 {
        push_decimal(&mut label, volume as u128);
    } else if volume < 1_000_000 {
        push_tenths(&mut label, (volume / 100) as u128);
        label.append("K");
    } else if volume < 1_000_000_000 {
        push_tenths(&mut label, (volume / 100_000) as u128);
        label.append("M");
    } else {
        push_tenths(&mut label, (volume / 100_000_000) as u128);
        label.append("B");
    }
    assert(label@ =~= volume_label(volume as nat));
    label
}

/// Appends the notation of `hundredths / 100` with two decimals to `out`.
pub fn push_hundredths(out: &mut String, negative: bool, hundredths: u128)
    ensures
        final(out)@ == old(out)@ + hundredths_text(negative, hundredths as nat),
{
    proof {
        reveal_strlit("-");
        reveal_strlit(".");
    }
    if negative && hundredths > 0 {
        out.append("-");
    }
    push_decimal(out, hundredths / 100);
    out.append(".");
    out.append(digit_str(((hundredths / 10) % 10) as u8));
    out.append(digit_str((hundredths % 10) as u8));
    assert(out@ =~= old(out)@ + hundredths_text(negative, hundredths as nat));
}

/// The label of a tick on the price axis.
pub fn format_price(price: i64) -> (label: String)
    ensures
        label@ == price_label(price as int),
{
    let magnitude: u128 = if price < 0 {
        (-(price as i128)) as u128
    } else {
        price as u128
    };
    let mut label = String::new();
    push_hundredths(&mut label, price < 0, (magnitude + 5_000) / 10_000);
    label
}

} // verus!
