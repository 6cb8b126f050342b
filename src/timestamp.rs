use vstd::prelude::*;

verus! {

pub const DIGITS: &'static str = "0123456789";

/// A local wall-clock time, field by field.
#[derive(Clone, Copy, Debug, PartialEq, Eq, Structural)]
pub struct Timestamp {
    pub year: i32,
    pub month: u32,
    pub day: u32,
    pub hour: u32,
    pub minute: u32,
    pub second: u32,
}

impl Timestamp {
    pub open spec fn wf(&self) -> bool {
        &&& 1 <= self.month <= 12
        &&& 1 <= self.day <= 31
        &&& self.hour < 24
        &&& self.minute < 60
        &&& self.second < 60
    }
}

/// The decimal digit `d`.
pub open spec fn digit(d: nat) -> char {
    DIGITS@[d as int]
}

/// The last `width` decimal digits of `n`, with leading zeros.
pub open spec fn padded(n: nat, width: nat) -> Seq<char>
    decreases width,
{
    if width == 0 {
        Seq::empty()
    } else {
        padded(n / 10, (width - 1) as nat).push(digit(n % 10))
    }
}

/// The decimal digits of `n`, without leading zeros.
pub open spec fn decimal(n: nat) -> Seq<char>
    decreases n,
{
    if n < 10 {
        seq![digit(n)]
    } else {
        decimal(n / 10).push(digit(n % 10))
    }
}

/// The digits of a year's magnitude: at least four, zero-padded.
pub open spec fn year_digits(n: nat) -> Seq<char> {
    if n < 10000 {
        padded(n, 4)
    } else {
        decimal(n)
    }
}

/// A year as four digits, with a sign before years outside 0 to 9999.
pub open spec fn year_text(y: int) -> Seq<char> {
    if y < 0 {
        seq!['-'] + year_digits((-y) as nat)
    } else if y > 9999 {
        seq!['+'] + year_digits(y as nat)
    } else {
        year_digits(y as nat)
    }
}

/// The time written as `YYYY-MM-DDTHH:MM:SS`.
pub open spec fn timestamp_text(t: Timestamp) -> Seq<char> {
    year_text(t.year as int) + seq!['-'] + padded(t.month as nat, 2) + seq!['-'] + padded(
        t.day as nat,
        2,
    ) + seq!['T'] + padded(t.hour as nat, 2) + seq![':'] + padded(t.minute as nat, 2) + seq![':']
        + padded(t.second as nat, 2)
}

fn digit_text(d: u32) -> (r: &'static str)
    requires
        d < 10,
    ensures
        r@ == seq![digit(d as nat)],
{
    proof {
        reveal_strlit("0123456789");
    }
    let r = DIGITS.substring_char(d as usize, d as usize + 1);
    assert(r@ =~= seq![digit(d as nat)]);
    r
}

fn padded_text(n: u32, width: usize) -> (r: String)
    ensures
        r@ == padded(n as nat, width as nat),
    decreases width,
{
    if width == 0 {
        String::new()
    } else {
        let head = padded_text(n / 10, width - 1);
        head.concat(digit_text(n % 10))
    }
}

fn decimal_text(n: u32) -> (r: String)
    ensures
        r@ == decimal(n as nat),
    decreases n,
{
    if n < 10 {
        String::from_str(digit_text(n))
    } else {
        let head = decimal_text(n / 10);
        head.concat(digit_text(n % 10))
    }
}

fn year_digits_text(n: u32) -> (r: String)
    ensures
        r@ == year_digits(n as nat),
{
    if n < 10000 {
        padded_text(n, 4)
    } else {
        decimal_text(n)
    }
}

/// Writes the time as `YYYY-MM-DDTHH:MM:SS`.
pub fn format_timestamp(t: &Timestamp) -> (r: String)
    ensures
        r@ == timestamp_text(*t),
{
    let year = if t.year < 0 {
        let magnitude = (0i64 - t.year as i64) as u32;
        String::from_str("-").concat(year_digits_text(magnitude).as_str())
    } else if t.year > 9999 {
        String::from_str("+").concat(year_digits_text(t.year as u32).as_str())
    } else {
        year_digits_text(t.year as u32)
    };
    proof {
        reveal_strlit("-");
        reveal_strlit("+");
        reveal_strlit("T");
        reveal_strlit(":");
    }
    let r = year.concat("-").concat(padded_text(t.month, 2).as_str()).concat("-").concat(
        padded_text(t.day, 2).as_str(),
    ).concat("T").concat(padded_text(t.hour, 2).as_str()).concat(":").concat(
        padded_text(t.minute, 2).as_str(),
    ).concat(":").concat(padded_text(t.second, 2).as_str());
    assert(r@ =~= timestamp_text(*t));
    r
}

} // verus!
