//! Units. Right now only feet are supported.
use vstd::prelude::*;
use vstd::string::*;

use crate::error::LapstrakeError;

verus! {

/// Feet, inches, and eighths of an inch.
#[derive(Clone, Copy, PartialEq, Eq, Structural, Debug)]
pub struct Feet {
    pub feet: u32,
    pub inches: u32,
    pub eighths: u32,
}

pub open spec fn is_digit(c: char) -> bool {
    '0' <= c && c <= '9'
}

pub open spec fn digit_value(c: char) -> nat {
    (c as int - '0' as int) as nat
}

pub open spec fn all_digits(s: Seq<char>) -> bool {
    forall|i: int| 0 <= i < s.len() ==> is_digit(#[trigger] s[i])
}

/// The number written by a sequence of decimal digits.
pub open spec fn digits_value(s: Seq<char>) -> nat
    decreases s.len(),
{
    if s.len() == 0 {
        0
    } else {
        digits_value(s.drop_last()) * 10 + digit_value(s.last())
    }
}

/// What reading an unsigned 32-bit number from text gives: an optional `+`,
/// then at least one decimal digit, with a value that fits.
pub open spec fn parsed_u32(s: Seq<char>) -> Option<u32> {
    let digits = if s.len() > 0 && s[0] == '+' {
        s.skip(1)
    } else {
        s
    };
    if digits.len() > 0 && all_digits(digits) && digits_value(digits) <= u32::MAX {
        Some(digits_value(digits) as u32)
    } else {
        None
    }
}

/// The index of the first `-` at or after `k`, or the length if there is none.
pub open spec fn dash_from(s: Seq<char>, k: int) -> int
    decreases s.len() - k,
{
    if k >= s.len() || k < 0 {
        s.len() as int
    } else if s[k] == '-' {
        k
    } else {
        dash_from(s, k + 1)
    }
}

/// The three dash-separated parts of a measurement, if there are exactly three.
pub open spec fn three_parts(s: Seq<char>) -> Option<(Seq<char>, Seq<char>, Seq<char>)> {
    let i = dash_from(s, 0);
    let j = dash_from(s, i + 1);
    if i < s.len() && j < s.len() && dash_from(s, j + 1) == s.len() {
        Some((s.subrange(0, i), s.subrange(i + 1, j), s.subrange(j + 1, s.len() as int)))
    } else {
        None
    }
}

/// The measurement written as `feet-inches-eighths`, if the text is one.
pub open spec fn parsed_feet(s: Seq<char>) -> Option<Feet> {
    match three_parts(s) {
        Some((a, b, c)) => match (parsed_u32(a), parsed_u32(b), parsed_u32(c)) {
            (Some(feet), Some(inches), Some(eighths)) => Some(
                Feet { feet, inches, eighths },
            ),
            _ => None,
        },
        None => None,
    }
}

/// A measurement cell: `x` for an omitted one, or a measurement.
pub open spec fn parsed_cell(s: Seq<char>) -> Option<Option<Feet>> {
    if s == seq!['x'] {
        Some(None)
    } else {
        match parsed_feet(s) {
            Some(f) => Some(Some(f)),
            None => None,
        }
    }
}

pub open spec fn digit_char(d: nat) -> char {
    ('0' as int + d) as char
}

/// The decimal text of a number, without leading zeros.
pub open spec fn decimal_text(n: nat) -> Seq<char>
    decreases n,
{
    if n < 10 {
        seq![digit_char(n)]
    } else {
        decimal_text(n / 10).push(digit_char(n % 10))
    }
}

/// How a measurement is written for people: `2' 3 4/8"`, leaving out zero parts.
pub open spec fn display_text(f: Feet) -> Seq<char> {
    let inch = seq!['"'];
    let foot = seq!['\''];
    let sp = seq![' '];
    let eighth = seq!['/', '8', '"'];
    if f.feet == 0 && f.inches == 0 && f.eighths == 0 {
        seq!['0', '\'']
    } else if f.feet == 0 && f.eighths == 0 {
        decimal_text(f.inches as nat) + inch
    } else if f.feet == 0 {
        decimal_text(f.inches as nat) + sp + decimal_text(f.eighths as nat) + eighth
    } else if f.eighths == 0 {
        decimal_text(f.feet as nat) + foot + sp + decimal_text(f.inches as nat) + inch
    } else {
        decimal_text(f.feet as nat) + foot + sp + decimal_text(f.inches as nat) + sp
            + decimal_text(f.eighths as nat) + eighth
    }
}

/// How a measurement is written in the input tables: `2-3-4`.
pub open spec fn table_text(f: Feet) -> Seq<char> {
    decimal_text(f.feet as nat) + seq!['-'] + decimal_text(f.inches as nat) + seq!['-']
        + decimal_text(f.eighths as nat)
}

/// Relies on String::push: the character is appended at the end.
#[verifier::external_body]
pub(crate) fn push_char(s: &mut String, c: char)
    ensures
        final(s)@ == old(s)@.push(c),
{
    s.push(c)
}

/// Append the decimal text of `n`.
fn push_decimal(s: &mut String, n: u32)
    ensures
        final(s)@ == old(s)@ + decimal_text(n as nat),
    decreases n,
{
    if n >= 10 {
        push_decimal(s, n / 10);
    }
    let d = n % 10;
    push_char(s, ((d + 48) as u8) as char);
    proof {
        assert(((d + 48) as u8) as char == digit_char(d as nat));
        assert(final(s)@ =~= old(s)@ + decimal_text(n as nat));
    }
}

proof fn lemma_digits_value_prefix(s: Seq<char>, k: int)
    requires
        0 <= k <= s.len(),
    ensures
        digits_value(s.take(k)) <= digits_value(s),
    decreases s.len(),
{
    if k < s.len() {
        assert(s.drop_last().take(k) =~= s.take(k));
        lemma_digits_value_prefix(s.drop_last(), k);
    } else {
        assert(s.take(k) =~= s);
    }
}

impl Feet {
    /// The total length in eighths of an inch.
    pub open spec fn eighths_total(self) -> int {
        self.feet * 96 + self.inches * 8 + self.eighths
    }

    pub fn zero() -> (r: Feet)
        ensures
            r == (Feet { feet: 0, inches: 0, eighths: 0 }),
    {
        Feet { feet: 0, inches: 0, eighths: 0 }
    }

    /// The total length in eighths of an inch.
    pub fn total_eighths(&self) -> (r: u64)
        ensures
            r == self.eighths_total(),
    {
        self.feet as u64 * 96 + self.inches as u64 * 8 + self.eighths as u64
    }

    /// Parse Feet from a string, using the format 2-3-4.
    pub fn parse(text: &str) -> (r: Result<Feet, LapstrakeError>)
        ensures
            parsed_cell(text@) matches Some(Some(f)) ==> r == Ok::<Feet, LapstrakeError>(f),
            !(parsed_cell(text@) matches Some(Some(_))) ==> (r matches Err(e) && e.is_load()),
    {
        match Feet::parse_opt(text) {
            Ok(None) => Err(LapstrakeError::Load.context("this required measurement was omitted")),
            Ok(Some(feet)) => Ok(feet),
            Err(e) => Err(e),
        }
    }

    /// Parse Option<Feet> from a string, using the format 2-3-4, or
    /// "x" for None.
    pub fn parse_opt(text: &str) -> (r: Result<Option<Feet>, LapstrakeError>)
        ensures
            parsed_cell(text@) matches Some(c) ==> r == Ok::<Option<Feet>, LapstrakeError>(c),
            parsed_cell(text@) is None ==> (r matches Err(e) && e.is_load()),
    {
        if text.unicode_len() == 1 && text.get_char(0) == 'x' {
            assert(text@ =~= seq!['x']);
            return Ok(None);
        }
        assert(text@ != seq!['x']);
        match Self::from_text(text) {
            Ok(feet) => Ok(Some(feet)),
            Err(e) => {
                let mut message = String::from_str("Was not able to read measurement '");
                message.append(text);
                message.append(
                    "'. Expected formatting like 3-4-5 for 3' 4 5/8\". All parts of the measurement must be included, even if they are zero.",
                );
                Err(e.context(message.as_str()))
            },
        }
    }

    /// Read a measurement written as exactly three dash-separated numbers.
    pub fn from_text(text: &str) -> (r: Result<Self, LapstrakeError>)
        ensures
            parsed_feet(text@) matches Some(f) ==> r == Ok::<Feet, LapstrakeError>(f),
            parsed_feet(text@) is None ==> (r matches Err(e) && e.is_load()),
    {
        let n = text.unicode_len();
        let i = find_dash(text, 0);
        let j = if i < n {
            find_dash(text, i + 1)
        } else {
            n
        };
        let k = if j < n {
            find_dash(text, j + 1)
        } else {
            n
        };
        if !(i < n && j < n && k == n) {
            return Err(LapstrakeError::Load.context("Didn't find exactly 3 parts in the measurement."));
        }
        let feet = match Self::parse_usize(text.substring_char(0, i)) {
            Ok(v) => v,
            Err(e) => return Err(e.context("Invalid feet.")),
        };
        let inches = match Self::parse_usize(text.substring_char(i + 1, j)) {
            Ok(v) => v,
            Err(e) => return Err(e.context("Invalid inches.")),
        };
        let eighths = match Self::parse_usize(text.substring_char(j + 1, n)) {
            Ok(v) => v,
            Err(e) => return Err(e.context("Invalid eighths.")),
        };
        Ok(Feet { feet, inches, eighths })
    }

    /// Read an unsigned number: an optional `+`, then decimal digits.
    pub fn parse_usize(text: &str) -> (r: Result<u32, LapstrakeError>)
        ensures
            parsed_u32(text@) matches Some(v) ==> r == Ok::<u32, LapstrakeError>(v),
            parsed_u32(text@) is None ==> (r matches Err(e) && e.is_load()),
    {
        let n = text.unicode_len();
        let start: usize = if n > 0 && text.get_char(0) == '+' {
            1
        } else {
            0
        };
        let ghost digits = text@.subrange(start as int, n as int);
        assert(digits =~= (if text@.len() > 0 && text@[0] == '+' {
            text@.skip(1)
        } else {
            text@
        }));
        let mut ok = start < n;
        let mut value: u64 = 0;
        let mut i: usize = start;
        while ok && i < n
            invariant
                start <= i <= n,
                n == text@.len(),
                digits == text@.subrange(start as int, n as int),
                digits == (if text@.len() > 0 && text@[0] == '+' {
                    text@.skip(1)
                } else {
                    text@
                }),
                ok ==> all_digits(digits.take(i - start)),
                ok ==> value == digits_value(digits.take(i - start)),
                ok ==> value <= u32::MAX,
                ok ==> start < n,
                !ok ==> parsed_u32(text@) is None,
            decreases n - i + (if ok { 1int } else { 0 }),
        {
            let c = text.get_char(i);
            let ghost pre = digits.take(i - start);
            assert(digits.take(i + 1 - start).drop_last() =~= pre);
            assert(digits[i - start] == c);
            if '0' <= c && c <= '9' {
                let next = value * 10 + (c as u64 - 48);
                proof {
                    assert(digits.take(i + 1 - start).last() == c);
                    assert(digits_value(digits.take(i + 1 - start)) == value * 10 + digit_value(c));
                    assert forall|m: int| 0 <= m < i + 1 - start implies is_digit(
                        #[trigger] digits.take(i + 1 - start)[m],
                    ) by {
                        if m < i - start {
                            assert(digits.take(i + 1 - start)[m] == pre[m]);
                        }
                    }
                }
                if next > u32::MAX as u64 {
                    proof {
                        lemma_digits_value_prefix(digits, i + 1 - start);
                    }
                    ok = false;
                } else {
                    value = next;
                    i = i + 1;
                }
            } else {
                assert(!is_digit(digits[i - start]));
                ok = false;
            }
        }
        if ok {
            assert(digits.take(n - start) =~= digits);
            Ok(value as u32)
        } else {
            let mut message = String::from_str("Unable to read number in measurement: '");
            message.append(text);
            message.append("'.");
            Err(LapstrakeError::Load.context(message.as_str()))
        }
    }

    /// The measurement as written in the input tables, e.g. `2-3-4`.
    pub fn debug_text(&self) -> (r: String)
        ensures
            r@ == table_text(*self),
    {
        let mut s = String::new();
        push_decimal(&mut s, self.feet);
        push_char(&mut s, '-');
        push_decimal(&mut s, self.inches);
        push_char(&mut s, '-');
        push_decimal(&mut s, self.eighths);
        proof {
            assert(s@ =~= table_text(*self));
        }
        s
    }

    /// The measurement as written for people, e.g. `2' 3 4/8"`.
    pub fn to_text(&self) -> (r: String)
        ensures
            r@ == display_text(*self),
    {
        let mut s = String::new();
        if self.feet == 0 && self.inches == 0 && self.eighths == 0 {
            push_char(&mut s, '0');
            push_char(&mut s, '\'');
        } else {
            if self.feet != 0 {
                push_decimal(&mut s, self.feet);
                push_char(&mut s, '\'');
                push_char(&mut s, ' ');
            }
            push_decimal(&mut s, self.inches);
            if self.eighths != 0 {
                push_char(&mut s, ' ');
                push_decimal(&mut s, self.eighths);
                push_char(&mut s, '/');
                push_char(&mut s, '8');
            }
            push_char(&mut s, '"');
        }
        proof {
            assert(s@ =~= display_text(*self));
        }
        s
    }
}

/// The index of the first `-` at or after `from`, or the length if there is none.
fn find_dash(text: &str, from: usize) -> (r: usize)
    requires
        from <= text@.len(),
    ensures
        r == dash_from(text@, from as int),
        from <= r <= text@.len(),
{
    let n = text.unicode_len();
    let mut k = from;
    while k < n
        invariant
            from <= k <= n,
            n == text@.len(),
            dash_from(text@, k as int) == dash_from(text@, from as int),
            forall|m: int| from <= m < k ==> text@[m] != '-',
        decreases n - k,
    {
        if text.get_char(k) == '-' {
            return k;
        }
        k = k + 1;
    }
    k
}

} // verus!
