//! Calendar dates as text.
use vstd::prelude::*;

use crate::text::{decimal, digit_value, padded, padded_is_all_digits, padded_text};

verus! {

/// The year of a date: four digits from year 0 to year 9999, and beyond
/// them a sign followed by at least four digits.
pub open spec fn year_text(year: i32) -> Seq<char> {
    if 0 <= year <= 9999 {
        padded(year as nat, 4)
    } else if year < 0 {
        seq!['-'] + padded((-year) as nat, 4)
    } else {
        seq!['+'] + padded(year as nat, 4)
    }
}

/// A date as year, month and day with a hyphen between them, month and day
/// with two digits each: `2024-02-29`.
pub open spec fn date_text(year: i32, month: u32, day: u32) -> Seq<char> {
    year_text(year) + seq!['-'] + padded(month as nat, 2) + seq!['-'] + padded(day as nat, 2)
}

/// Writes the year of a date.
pub fn render_year(year: i32) -> (text: String)
    ensures
        text@ == year_text(year),
{
    if 0 <= year && year <= 9999 {
        padded_text(year as u64, 4)
    } else if year < 0 {
        proof {
            reveal_strlit("-");
        }
        let mut text = String::from_str("-");
        text.append(padded_text((-(year as i64)) as u64, 4).as_str());
        assert(text@ =~= year_text(year));
        text
    } else {
        proof {
            reveal_strlit("+");
        }
        let mut text = String::from_str("+");
        text.append(padded_text(year as u64, 4).as_str());
        assert(text@ =~= year_text(year));
        text
    }
}

/// Writes a date as year, month and day.
pub fn render_date(year: i32, month: u32, day: u32) -> (text: String)
    ensures
        text@ == date_text(year, month, day),
{
    proof {
        reveal_strlit("-");
    }
    let mut text = render_year(year);
    text.append("-");
    text.append(padded_text(month as u64, 2).as_str());
    text.append("-");
    text.append(padded_text(day as u64, 2).as_str());
    assert(text@ =~= date_text(year, month, day));
    text
}

/// Ten characters: four digits, a hyphen, two digits, a hyphen, two digits.
pub open spec fn is_date_shaped(text: Seq<char>) -> bool {
    &&& text.len() == 10
    &&& text[4] == '-'
    &&& text[7] == '-'
    &&& forall|i: int|
        0 <= i < 10 && i != 4 && i != 7 ==> digit_value(#[trigger] text[i]).is_some()
}

/// A date of the years 0 to 9999 is written with ten characters: the year
/// in four digits, the month in two and the day in two, with a hyphen
/// after the year and after the month.
pub proof fn date_text_shape(year: i32, month: u32, day: u32)
    requires
        0 <= year <= 9999,
        1 <= month <= 12,
        1 <= day <= 31,
    ensures
        is_date_shaped(date_text(year, month, day)),
{
    lemma_decimal_len(year as nat);
    lemma_decimal_len(month as nat);
    lemma_decimal_len(day as nat);
    padded_is_all_digits(year as nat, 4);
    padded_is_all_digits(month as nat, 2);
    padded_is_all_digits(day as nat, 2);
    let y = padded(year as nat, 4);
    let m = padded(month as nat, 2);
    let d = padded(day as nat, 2);
    let text = date_text(year, month, day);
    assert(y.len() == 4 && m.len() == 2 && d.len() == 2);
    assert(text.len() == 10);
    assert forall|i: int| 0 <= i < 10 && i != 4 && i != 7 implies digit_value(
        #[trigger] text[i],
    ).is_some() by {
        if i < 4 {
            assert(text[i] == y[i]);
        } else if i < 7 {
            assert(text[i] == m[i - 5]);
        } else {
            assert(text[i] == d[i - 8]);
        }
    }
}

proof fn lemma_decimal_len(n: nat)
    ensures
        n < 10 ==> decimal(n).len() == 1,
        10 <= n < 100 ==> decimal(n).len() == 2,
        100 <= n < 1000 ==> decimal(n).len() == 3,
        1000 <= n < 10000 ==> decimal(n).len() == 4,
{
    reveal_with_fuel(decimal, 5);
}

} // verus!
