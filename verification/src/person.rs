//! People records and their display string, verified character by character
//! against a specification of the rendered text.

use vstd::prelude::*;

use vstd::string::StringExecFns;

verus! {

pub struct Name {
    pub first: String,
    pub last: String,
}

pub struct Date {
    pub day: u8,
    pub month: u8,
}

pub struct Person {
    pub name: Name,
    pub age: u8,
    pub dob: Date,
}

/// The character for one decimal digit.
pub open spec fn digit_char(d: int) -> char {
    if d == 0 {
        '0'
    } else if d == 1 {
        '1'
    } else if d == 2 {
        '2'
    } else if d == 3 {
        '3'
    } else if d == 4 {
        '4'
    } else if d == 5 {
        '5'
    } else if d == 6 {
        '6'
    } else if d == 7 {
        '7'
    } else if d == 8 {
        '8'
    } else {
        '9'
    }
}

/// Decimal rendering of a byte value, without leading zeroes.
pub open spec fn dec_digits(n: int) -> Seq<char>
    recommends
        0 <= n < 1000,
{
    if n < 10 {
        seq![digit_char(n)]
    } else if n < 100 {
        seq![digit_char(n / 10), digit_char(n % 10)]
    } else {
        seq![digit_char(n / 100), digit_char((n / 10) % 10), digit_char(n % 10)]
    }
}

/// The three-letter month abbreviation, or a placeholder for an invalid
/// month number.
pub open spec fn month_name(m: int) -> Seq<char> {
    if m == 1 {
        "Jan"@
    } else if m == 2 {
        "Feb"@
    } else if m == 3 {
        "Mar"@
    } else if m == 4 {
        "Apr"@
    } else if m == 5 {
        "May"@
    } else if m == 6 {
        "Jun"@
    } else if m == 7 {
        "Jul"@
    } else if m == 8 {
        "Aug"@
    } else if m == 9 {
        "Sep"@
    } else if m == 10 {
        "Oct"@
    } else if m == 11 {
        "Nov"@
    } else if m == 12 {
        "Dec"@
    } else {
        "N/A"@
    }
}

/// The rendered record: name, age, and date of birth as month then day.
pub open spec fn person_string(p: Person) -> Seq<char> {
    p.name.first@ + " "@ + p.name.last@ + ", aged "@ + dec_digits(p.age as int) + ", DOB: "@
        + month_name(p.dob.month as int) + ", "@ + dec_digits(p.dob.day as int)
}

/// The string slice holding one decimal digit.
fn digit_str(d: u8) -> (r: &'static str)
    requires
        d < 10,
    ensures
        r@ == seq![digit_char(d as int)],
{
    let r: &'static str = if d == 0 {
        "0"
    } else if d == 1 {
        "1"
    } else if d == 2 {
        "2"
    } else if d == 3 {
        "3"
    } else if d == 4 {
        "4"
    } else if d == 5 {
        "5"
    } else if d == 6 {
        "6"
    } else if d == 7 {
        "7"
    } else if d == 8 {
        "8"
    } else {
        "9"
    };
    proof {
        reveal_strlit("0");
        reveal_strlit("1");
        reveal_strlit("2");
        reveal_strlit("3");
        reveal_strlit("4");
        reveal_strlit("5");
        reveal_strlit("6");
        reveal_strlit("7");
        reveal_strlit("8");
        reveal_strlit("9");
        assert(r@ =~= seq![digit_char(d as int)]);
    }
    r
}

/// Appends the decimal rendering of `n` to `out`.
fn push_decimal(out: &mut String, n: u8)
    ensures
        final(out)@ == old(out)@ + dec_digits(n as int),
{
    if n < 10 {
        out.append(digit_str(n));
    } else if n < 100 {
        out.append(digit_str(n / 10));
        out.append(digit_str(n % 10));
    } else {
        out.append(digit_str(n / 100));
        out.append(digit_str((n / 10) % 10));
        out.append(digit_str(n % 10));
    }
    proof {
        assert(final(out)@ =~= old(out)@ + dec_digits(n as int));
    }
}

/// The three-letter month abbreviation as a string slice.
fn month_str(m: u8) -> (r: &'static str)
    ensures
        r@ == month_name(m as int),
{
    match m {
        1 => "Jan",
        2 => "Feb",
        3 => "Mar",
        4 => "Apr",
        5 => "May",
        6 => "Jun",
        7 => "Jul",
        8 => "Aug",
        9 => "Sep",
        10 => "Oct",
        11 => "Nov",
        12 => "Dec",
        _ => "N/A",
    }
}

impl Person {
    /// Renders the record as "First Last, aged A, DOB: Mon, D".
    pub fn to_string(self) -> (r: String)
        ensures
            r@ == person_string(self),
    {
        let mut out = String::new();
        out.append(self.name.first.as_str());
        out.append(" ");
        out.append(self.name.last.as_str());
        out.append(", aged ");
        push_decimal(&mut out, self.age);
        out.append(", DOB: ");
        out.append(month_str(self.dob.month));
        out.append(", ");
        push_decimal(&mut out, self.dob.day);
        out
    }
}

/// Assembles a person record from its parts.
pub fn new_person(first_name: String, last_name: String, age: u8, birth_month: u8, birth_day: u8)
    -> (p: Person)
    ensures
        p.name.first == first_name,
        p.name.last == last_name,
        p.age == age,
        p.dob.month == birth_month,
        p.dob.day == birth_day,
{
    Person {
        name: Name { first: first_name, last: last_name },
        age,
        dob: Date { day: birth_day, month: birth_month },
    }
}

} // verus!
