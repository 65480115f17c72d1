//! Text building blocks: decimal rendering, joining and comparison.
use vstd::prelude::*;

verus! {

/// The character that writes the digit `d`, for `0 <= d <= 9`.
pub open spec fn digit_char(d: int) -> char {
    if d == 0 {
        '0'
    } else if d == 1 {
        '1'
    } else if d == 2 {
        '2'
    } else if d == 3 {
        '3'
    } else if d == 4 {
        '4'
    } else if d == 5 {
        '5'
    } else if d == 6 {
        '6'
    } else if d == 7 {
        '7'
    } else if d == 8 {
        '8'
    } else {
        '9'
    }
}

/// The value of a decimal digit.
pub open spec fn digit_value(c: char) -> Option<nat> {
    if c == '0' {
        Some(0)
    } else if c == '1' {
        Some(1)
    } else if c == '2' {
        Some(2)
    } else if c == '3' {
        Some(3)
    } else if c == '4' {
        Some(4)
    } else if c == '5' {
        Some(5)
    } else if c == '6' {
        Some(6)
    } else if c == '7' {
        Some(7)
    } else if c == '8' {
        Some(8)
    } else if c == '9' {
        Some(9)
    } else {
        None
    }
}

/// Every character is a decimal digit.
pub open spec fn all_digits(text: Seq<char>) -> bool {
    forall|i: int| 0 <= i < text.len() ==> digit_value(#[trigger] text[i]).is_some()
}

/// The decimal digits of `n`, most significant first, without padding.
pub open spec fn decimal(n: nat) -> Seq<char>
    decreases n,
{
    if n < 10 {
        seq![digit_char(n as int)]
    } else {
        decimal(n / 10).push(digit_char((n % 10) as int))
    }
}

/// `parts` written one after another with `separator` between neighbours.
pub open spec fn join(parts: Seq<Seq<char>>, separator: Seq<char>) -> Seq<char>
    decreases parts.len(),
{
    if parts.len() == 0 {
        Seq::empty()
    } else if parts.len() == 1 {
        parts[0]
    } else {
        join(parts.drop_last(), separator) + separator + parts.last()
    }
}

/// The one-character text of a digit.
pub fn digit_text(d: u8) -> (text: &'static str)
    requires
        d <= 9,
    ensures
        text@ == seq![digit_char(d as int)],
{
    proof {
        reveal_strlit("0");
        reveal_strlit("1");
        reveal_strlit("2");
        reveal_strlit("3");
        reveal_strlit("4");
        reveal_strlit("5");
        reveal_strlit("6");
        reveal_strlit("7");
        reveal_strlit("8");
        reveal_strlit("9");
    }
    let text = match d {
        0 => "0",
        1 => "1",
        2 => "2",
        3 => "3",
        4 => "4",
        5 => "5",
        6 => "6",
        7 => "7",
        8 => "8",
        _ => "9",
    };
    assert(text@ =~= seq![digit_char(d as int)]);
    text
}

/// Writes `n` in decimal.
pub fn decimal_text(n: u64) -> (text: String)
    ensures
        text@ == decimal(n as nat),
    decreases n,
{
    if n < 10 {
        String::from_str(digit_text(n as u8))
    } else {
        let mut text = decimal_text(n / 10);
        text.append(digit_text((n % 10) as u8));
        assert(text@ =~= decimal(n as nat));
        text
    }
}

/// Whether two texts hold the same characters.
pub fn same_text(left: &str, right: &str) -> (same: bool)
    ensures
        same == (left@ == right@),
{
    let n = left.unicode_len();
    if right.unicode_len() != n {
        return false;
    }
    let mut i: usize = 0;
    while i < n
        invariant
            i <= n,
            n == left@.len(),
            n == right@.len(),
            forall|k: int| 0 <= k < i ==> left@[k] == right@[k],
        decreases n - i,
    {
        if left.get_char(i) != right.get_char(i) {
            return false;
        }
        i += 1;
    }
    assert(left@ =~= right@);
    true
}

/// `n` zeros.
pub open spec fn zeros(n: nat) -> Seq<char> {
    Seq::new(n, |i: int| '0')
}

/// The decimal digits of `n`, with zeros in front up to `width` characters
/// where it has fewer.
pub open spec fn padded(n: nat, width: nat) -> Seq<char> {
    if decimal(n).len() >= width {
        decimal(n)
    } else {
        zeros((width - decimal(n).len()) as nat) + decimal(n)
    }
}

/// Writes `n` in decimal, with zeros in front up to `width` characters.
pub fn padded_text(n: u64, width: usize) -> (text: String)
    ensures
        text@ == padded(n as nat, width as nat),
{
    let digits = decimal_text(n);
    let length = digits.as_str().unicode_len();
    let mut text = String::new();
    let mut k: usize = length;
    proof {
        reveal_strlit("0");
        assert(text@ =~= zeros(0));
    }
    while k < width
        invariant
            length <= k,
            k <= width || k == length,
            text@ == zeros((k - length) as nat),
            "0"@ == seq!['0'],
        decreases width - k,
    {
        text.append("0");
        assert(text@ =~= zeros((k + 1 - length) as nat));
        k += 1;
    }
    text.append(digits.as_str());
    assert(text@ =~= padded(n as nat, width as nat));
    text
}

/// The texts of a list, each by its view.
pub open spec fn texts_view(parts: Vec<String>) -> Seq<Seq<char>> {
    parts@.map_values(|part: String| part@)
}

/// Joins texts with a separator between neighbours.
pub fn join_texts(parts: &Vec<String>, separator: &str) -> (joined: String)
    ensures
        joined@ == join(texts_view(*parts), separator@),
{
    let ghost views = texts_view(*parts);
    let mut joined = String::new();
    let mut i: usize = 0;
    while i < parts.len()
        invariant
            i <= parts.len(),
            views == texts_view(*parts),
            joined@ == join(views.take(i as int), separator@),
        decreases parts.len() - i,
    {
        proof {
            let head = views.take(i as int + 1);
            assert(head.drop_last() =~= views.take(i as int));
            assert(head.last() == parts@[i as int]@);
        }
        if i > 0 {
            joined.append(separator);
        }
        joined.append(parts[i].as_str());
        assert(joined@ =~= join(views.take(i as int + 1), separator@));
        i += 1;
    }
    assert(views.take(parts.len() as int) =~= views);
    joined
}

/// Decimal rendering writes digits only.
pub proof fn decimal_is_all_digits(n: nat)
    ensures
        all_digits(decimal(n)),
    decreases n,
{
    if n >= 10 {
        decimal_is_all_digits(n / 10);
    }
}

/// Padded rendering writes digits only, and at least `width` of them; just
/// `width` where the number has no more digits than that.
pub proof fn padded_is_all_digits(n: nat, width: nat)
    ensures
        all_digits(padded(n, width)),
        padded(n, width).len() >= width,
        decimal(n).len() <= width ==> padded(n, width).len() == width,
{
    decimal_is_all_digits(n);
}

} // verus!
