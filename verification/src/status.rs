//! The status line: the selected record in words.

use crate::labels::{
    decimal_text, format_price, hundredths_text, price_label, push_decimal, push_hundredths,
};
use crate::render::index_view;
use crate::series::Record;
use crate::window::DisplayedWindow;
use std::fmt::Write;
use vstd::prelude::*;
use vstd::string::*;

verus! {

/// The status line while no record is selected.
pub const BLANK: &'static str =
    "Date:            | Daily % Gain/Loss:         % | Volume:              | Open:         | High:         | Low:          | Close:        ";

/// Year, month and day.
pub const DATE_FORMAT: &'static str = "%Y-%m-%d";

/// The text that `chrono` gives for the instant `timestamp` seconds after
/// the Unix epoch, UTC, in the given format; `None` where the instant is
/// beyond what `chrono` holds or the format is none that it writes.
pub uninterp spec fn formatted_date(timestamp: i64, format: Seq<char>) -> Option<Seq<char>>;

/// Calls `chrono::DateTime::from_timestamp` and writes what
/// `DateTime::format` gives for the result. The contract only names the
/// text.
#[verifier::external_body]
fn format_date(timestamp: i64, format: &str) -> (text: Option<String>)
    ensures
        text.deep_view() == formatted_date(timestamp, format@),
{
    let moment = chrono::DateTime::from_timestamp(timestamp, 0)?;
    let mut text = String::new();
    write!(text, "{}", moment.format(format)).ok()?;
    Some(text)
}

/// `text` behind as many blanks as it lacks to be `width` characters long.
pub open spec fn right_aligned(text: Seq<char>, width: nat) -> Seq<char> {
    Seq::new(
        if text.len() < width {
            (width - text.len()) as nat
        } else {
            0
        },
        |i: int| ' ',
    ) + text
}

/// The date of an instant, or nothing where the instant has no date.
pub open spec fn date_text(timestamp: i64) -> Seq<char> {
    match formatted_date(timestamp, DATE_FORMAT@) {
        Some(text) => text,
        None => Seq::empty(),
    }
}

/// The distance of `value` from zero.
pub open spec fn magnitude(value: int) -> nat {
    if value < 0 {
        (-value) as nat
    } else {
        value as nat
    }
}

/// The whole number nearest to `numerator / denominator`, a half rounded
/// up.
pub open spec fn nearest_ratio(numerator: nat, denominator: nat) -> nat {
    (2 * numerator + denominator) / (2 * denominator)
}

/// The change of the close of record `index` against the close of the
/// record before it, in percent of the latter with two decimals, a half
/// rounded away from zero. The first record has a change of zero, and a
/// change against a close of zero is not a number.
pub open spec fn change_text(window: Seq<Record>, index: int) -> Seq<char> {
    if index == 0 {
        hundredths_text(false, 0)
    } else {
        let previous = window[index - 1].close as int;
        let close = window[index].close as int;
        if previous == 0 {
            "n/a"@
        } else {
            hundredths_text(
                (close < previous) != (previous < 0),
                nearest_ratio(magnitude(close - previous) * 10_000, magnitude(previous)),
            )
        }
    }
}

/// The status line of record `index` of the window.
pub open spec fn record_text(window: Seq<Record>, index: int) -> Seq<char> {
    let r = window[index];
    "Date: "@ + right_aligned(date_text(r.timestamp), 10) + " | Daily % Gain/Loss: "@
        + right_aligned(change_text(window, index), 8) + "% | Volume: "@ + right_aligned(
        decimal_text(r.volume as nat),
        12,
    ) + " | Open: "@ + right_aligned(price_label(r.open as int), 8) + " | High: "@ + right_aligned(
        price_label(r.high as int),
        8,
    ) + " | Low: "@ + right_aligned(price_label(r.low as int), 8) + " | Close: "@ + right_aligned(
        price_label(r.close as int),
        8,
    )
}

/// The status line: the selected record in words, or the blank line when
/// no record of the window is selected.
pub open spec fn status_text(window: Seq<Record>, selection: Option<int>) -> Seq<char> {
    match selection {
        Some(i) if 0 <= i < window.len() => record_text(window, i),
        _ => BLANK@,
    }
}

/// Appends `label` and then `text`, aligned to the right in `width`
/// characters.
fn push_field(out: &mut String, label: &str, text: &str, width: usize)
    ensures
        final(out)@ == old(out)@ + label@ + right_aligned(text@, width as nat),
{
    out.append(label);
    let length = text.unicode_len();
    let blanks: usize = if length < width {
        width - length
    } else {
        0
    };
    let ghost start = out@;
    let mut k: usize = 0;
    proof {
        reveal_strlit(" ");
        assert(out@ =~= start + Seq::new(0, |i: int| ' '));
    }
    while k < blanks
        invariant
            k <= blanks,
            out@ == start + Seq::new(k as nat, |i: int| ' '),
            " "@ == seq![' '],
        decreases blanks - k,
    {
        out.append(" ");
        k = k + 1;
        assert(out@ =~= start + Seq::new(k as nat, |i: int| ' '));
    }
    out.append(text);
    assert(out@ =~= old(out)@ + label@ + right_aligned(text@, width as nat));
}

/// The distance of `value` from zero.
fn absolute(value: i128) -> (size: u128)
    requires
        value > i128::MIN,
    ensures
        size == magnitude(value as int),
{
    if value < 0 {
        (-value) as u128
    } else {
        value as u128
    }
}

/// The change of the close of record `index` against the record before it,
/// in words.
fn describe_change(records: &Vec<Record>, index: usize) -> (text: String)
    requires
        index < records.len(),
    ensures
        text@ == change_text(records@, index as int),
{
    let mut text = String::new();
    if index == 0 {
        push_hundredths(&mut text, false, 0);
        return text;
    }
    let previous = records[index - 1].close;
    let close = records[index].close;
    if previous == 0 {
        return String::from_str("n/a");
    }
    let difference = absolute(close as i128 - previous as i128);
    let base = absolute(previous as i128);
    let nearest = (2 * (difference * 10_000) + base) / (2 * base);
    push_hundredths(&mut text, (close < previous) != (previous < 0), nearest);
    text
}

/// Describes the selected record of the window in one line: its date, the
/// change of its close against the record before it, its volume and its
/// four prices.
pub fn status_line(window: &DisplayedWindow, selection: Option<usize>) -> (line: String)
    ensures
        line@ == status_text(window@, index_view(selection)),
{
    let records = window.records();
    let index = match selection {
        Some(i) => i,
        None => {
            return String::from_str(BLANK);
        },
    };
    if index >= records.len() {
        return String::from_str(BLANK);
    }
    let r = records[index];
    let date = match format_date(r.timestamp, DATE_FORMAT) {
        Some(text) => text,
        None => String::new(),
    };
    let change = describe_change(records, index);
    let mut volume = String::new();
    push_decimal(&mut volume, r.volume as u128);
    let open = format_price(r.open);
    let high = format_price(r.high);
    let low = format_price(r.low);
    let close = format_price(r.close);
    let mut line = String::new();
    push_field(&mut line, "Date: ", date.as_str(), 10);
    push_field(&mut line, " | Daily % Gain/Loss: ", change.as_str(), 8);
    push_field(&mut line, "% | Volume: ", volume.as_str(), 12);
    push_field(&mut line, " | Open: ", open.as_str(), 8);
    push_field(&mut line, " | High: ", high.as_str(), 8);
    push_field(&mut line, " | Low: ", low.as_str(), 8);
    push_field(&mut line, " | Close: ", close.as_str(), 8);
    assert(line@ =~= record_text(window@, index as int));
    line
}

} // verus!
