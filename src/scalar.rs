//! Typed field values and how raw text is classified into them.
use chrono::Datelike;
use vstd::prelude::*;

use crate::floatsyn::{float_ok, is_float_literal};
use crate::normalize::{char_vec, push_char};

verus! {

/// A calendar date as year, month (1 to 12) and day of the month (1 to 31).
#[derive(Clone, Copy, Debug, PartialEq, Eq, Structural)]
pub struct Date {
    pub year: i32,
    pub month: u32,
    pub day: u32,
}

/// A typed field value. A floating-point value is held as the text it was
/// read from, which is known to parse as a double.
#[derive(Clone, Debug)]
pub enum Scalar {
    Null,
    Integer(u64),
    Float(String),
    Date(Date),
    Text(String),
}

pub enum ScalarModel {
    Null,
    Integer(u64),
    Float(Seq<char>),
    Date(Date),
    Text(Seq<char>),
}

impl View for Scalar {
    type V = ScalarModel;

    open spec fn view(&self) -> ScalarModel {
        match self {
            Scalar::Null => ScalarModel::Null,
            Scalar::Integer(n) => ScalarModel::Integer(*n),
            Scalar::Float(t) => ScalarModel::Float(t@),
            Scalar::Date(d) => ScalarModel::Date(*d),
            Scalar::Text(t) => ScalarModel::Text(t@),
        }
    }
}

/// The year, month and day that chrono's `NaiveDate::parse_from_str` reads
/// from `text` with the format `pattern`, if it reads a date.
pub uninterp spec fn date_of(text: Seq<char>, pattern: Seq<char>) -> Option<(i32, u32, u32)>;

pub open spec fn date_triple(d: Option<Date>) -> Option<(i32, u32, u32)> {
    match d {
        Some(d) => Some((d.year, d.month, d.day)),
        None => None,
    }
}

/// Relies on chrono's `NaiveDate::parse_from_str` and on `Datelike`'s `year`,
/// `month` (1 to 12) and `day` (1 to 31) of the date it returns.
#[verifier::external_body]
fn parse_date(text: &str, pattern: &str) -> (r: Option<Date>)
    ensures
        date_triple(r) == date_of(text@, pattern@),
        r matches Some(d) ==> 1 <= d.month <= 12 && 1 <= d.day <= 31,
{
    match chrono::NaiveDate::parse_from_str(text, pattern) {
        Ok(d) => Some(Date { year: d.year(), month: d.month(), day: d.day() }),
        Err(_) => None,
    }
}

/// The one date layout recognised: day, abbreviated month name, four-digit
/// year, as in `15-Jan-2024`.
pub open spec fn date_pattern() -> Seq<char> {
    seq!['%', 'd', '-', '%', 'b', '-', '%', 'Y']
}

pub open spec fn is_digit(c: char) -> bool {
    '0' <= c && c <= '9'
}

pub open spec fn digit_value(c: char) -> nat {
    ((c as u32) - ('0' as u32)) as nat
}

/// The number that a string of decimal digits spells.
pub open spec fn digits_value(s: Seq<char>) -> nat
    decreases s.len(),
{
    if s.len() == 0 {
        0
    } else {
        digits_value(s.drop_last()) * 10 + digit_value(s.last())
    }
}

/// The unsigned integer that `s` spells: one or more decimal digits, no sign,
/// no separators, and a value that fits in 64 bits.
pub open spec fn uint_of(s: Seq<char>) -> Option<u64> {
    if s.len() > 0 && (forall|i: int| 0 <= i < s.len() ==> is_digit(#[trigger] s[i]))
        && digits_value(s) <= u64::MAX {
        Some(digits_value(s) as u64)
    } else {
        None
    }
}

/// How a present text value is classified once the float and date readings
/// of it are known: integer first, then float, then date, else text.
pub open spec fn classify_spec(t: Seq<char>, float_ok: bool, date: Option<Date>) -> ScalarModel {
    match uint_of(t) {
        Some(n) => ScalarModel::Integer(n),
        None => if float_ok {
            ScalarModel::Float(t)
        } else {
            match date {
                Some(d) => ScalarModel::Date(d),
                None => ScalarModel::Text(t),
            }
        },
    }
}

/// The date that the fixed layout reads from `t`, if any.
pub open spec fn date_in(t: Seq<char>) -> Option<Date> {
    match date_of(t, date_pattern()) {
        Some((y, m, d)) => Some(Date { year: y, month: m, day: d }),
        None => None,
    }
}

/// The typed value of a field's text; an absent text is null.
pub open spec fn infer_spec(raw: Option<Seq<char>>) -> ScalarModel {
    match raw {
        None => ScalarModel::Null,
        Some(t) => classify_spec(t, float_ok(t), date_in(t)),
    }
}

proof fn lemma_digits_monotone(s: Seq<char>, i: int, j: int)
    requires
        0 <= i <= j <= s.len(),
    ensures
        digits_value(s.subrange(0, i)) <= digits_value(s.subrange(0, j)),
    decreases j - i,
{
    if i < j {
        lemma_digits_monotone(s, i, j - 1);
        assert(s.subrange(0, j).drop_last() =~= s.subrange(0, j - 1));
    }
}

/// Reads an unsigned decimal integer: digits only, at least one, and a value
/// that fits in 64 bits.
pub fn parse_uint(text: &str) -> (r: Option<u64>)
    ensures
        r == uint_of(text@),
{
    let cs = char_vec(text);
    let n = cs.len();
    if n == 0 {
        return None;
    }
    let mut v: u64 = 0;
    let mut i: usize = 0;
    while i < n
        invariant
            n == cs@.len(),
            cs@ == text@,
            n > 0,
            i <= n,
            forall|j: int| 0 <= j < i ==> is_digit(#[trigger] cs@[j]),
            v as nat == digits_value(cs@.subrange(0, i as int)),
        decreases n - i,
    {
        let c = cs[i];
        if !('0' <= c && c <= '9') {
            return None;
        }
        let d = ((c as u32) - ('0' as u32)) as u64;
        assert(cs@.subrange(0, i + 1).drop_last() =~= cs@.subrange(0, i as int));
        match v.checked_mul(10) {
            None => {
                proof {
                    lemma_digits_monotone(cs@, i + 1, n as int);
                    assert(cs@.subrange(0, n as int) =~= cs@);
                }
                return None;
            },
            Some(m) => match m.checked_add(d) {
                None => {
                    proof {
                        lemma_digits_monotone(cs@, i + 1, n as int);
                        assert(cs@.subrange(0, n as int) =~= cs@);
                    }
                    return None;
                },
                Some(w) => {
                    v = w;
                },
            },
        }
        i = i + 1;
    }
    assert(cs@.subrange(0, n as int) =~= cs@);
    Some(v)
}

/// Classifies a present text value given whether it parses as a float and the
/// date it spells, if any: an unsigned integer first, then a float, then a
/// date, else the text itself.
pub fn classify(text: &str, float_ok: bool, date: Option<Date>) -> (r: Scalar)
    ensures
        r@ == classify_spec(text@, float_ok, date),
{
    match parse_uint(text) {
        Some(n) => Scalar::Integer(n),
        None => if float_ok {
            Scalar::Float(text.to_owned())
        } else {
            match date {
                Some(d) => Scalar::Date(d),
                None => Scalar::Text(text.to_owned()),
            }
        },
    }
}

/// The typed value of a field's text: null when there is none, otherwise an
/// unsigned integer, a float, a date in the `15-Jan-2024` layout, or the text
/// as it stands, tried in that order.
pub fn infer(raw: Option<&str>) -> (r: Scalar)
    ensures
        match raw {
            None => r@ == ScalarModel::Null,
            Some(t) => r@ == infer_spec(Some(t@)),
        },
{
    match raw {
        None => Scalar::Null,
        Some(t) => {
            let float_ok = is_float_literal(&char_vec(t));
            let pattern = "%d-%b-%Y";
            proof {
                reveal_strlit("%d-%b-%Y");
                assert(pattern@ =~= date_pattern());
            }
            let date = if float_ok || parse_uint(t).is_some() {
                None
            } else {
                parse_date(t, pattern)
            };
            classify(t, float_ok, date)
        },
    }
}

pub open spec fn digit_char(d: nat) -> char {
    seq!['0', '1', '2', '3', '4', '5', '6', '7', '8', '9'][d as int]
}

/// The decimal digits of `n`, without leading zeros.
pub open spec fn dec(n: nat) -> Seq<char>
    decreases n,
{
    if n < 10 {
        seq![digit_char(n)]
    } else {
        dec(n / 10).push(digit_char(n % 10))
    }
}

/// The decimal digits of `n`, padded with zeros to `width` characters.
pub open spec fn padded(n: nat, width: nat) -> Seq<char> {
    let d = dec(n);
    if d.len() >= width {
        d
    } else {
        Seq::new((width - d.len()) as nat, |i: int| '0') + d
    }
}

pub open spec fn year_text(y: i32) -> Seq<char> {
    if y < 0 {
        seq!['-'] + padded((-y) as nat, 4)
    } else {
        padded(y as nat, 4)
    }
}

/// How a value reads as text: `None` for null, decimal digits for an
/// integer, `YYYY-MM-DD` for a date, the text itself otherwise.
pub open spec fn render_spec(v: ScalarModel) -> Seq<char> {
    match v {
        ScalarModel::Null => seq!['N', 'o', 'n', 'e'],
        ScalarModel::Integer(n) => dec(n as nat),
        ScalarModel::Float(t) => t,
        ScalarModel::Date(d) => year_text(d.year) + seq!['-'] + padded(d.month as nat, 2) + seq!['-']
            + padded(d.day as nat, 2),
        ScalarModel::Text(t) => t,
    }
}

fn digit(d: u64) -> (r: char)
    requires
        d < 10,
    ensures
        r == digit_char(d as nat),
{
    match d {
        0 => '0',
        1 => '1',
        2 => '2',
        3 => '3',
        4 => '4',
        5 => '5',
        6 => '6',
        7 => '7',
        8 => '8',
        _ => '9',
    }
}

/// Appends the characters of `s` to `out`.
pub fn push_all(out: &mut String, s: &str)
    ensures
        final(out)@ == old(out)@ + s@,
{
    let cs = char_vec(s);
    let ghost start = out@;
    let mut i: usize = 0;
    while i < cs.len()
        invariant
            i <= cs@.len(),
            cs@ == s@,
            out@ == start + cs@.subrange(0, i as int),
        decreases cs@.len() - i,
    {
        push_char(out, cs[i]);
        assert(cs@.subrange(0, i + 1) =~= cs@.subrange(0, i as int).push(cs@[i as int]));
        assert(start + cs@.subrange(0, i + 1) =~= (start + cs@.subrange(0, i as int)).push(cs@[i as int]));
        i = i + 1;
    }
    assert(cs@.subrange(0, cs@.len() as int) =~= cs@);
}

/// Appends the decimal digits of `n` to `out`.
fn push_decimal(out: &mut String, n: u64)
    ensures
        final(out)@ == old(out)@ + dec(n as nat),
    decreases n,
{
    if n >= 10 {
        push_decimal(out, n / 10);
        push_char(out, digit(n % 10));
        assert(old(out)@ + dec(n as nat) =~= (old(out)@ + dec((n / 10) as nat)).push(digit_char((n % 10) as nat)));
    } else {
        push_char(out, digit(n));
        assert(old(out)@ + dec(n as nat) =~= old(out)@.push(digit_char(n as nat)));
    }
}

/// Appends the decimal digits of `n`, padded with zeros to `width`, to `out`.
fn push_padded(out: &mut String, n: u64, width: usize)
    ensures
        final(out)@ == old(out)@ + padded(n as nat, width as nat),
{
    let mut digits = String::new();
    push_decimal(&mut digits, n);
    assert(digits@ =~= dec(n as nat));
    let cs = char_vec(digits.as_str());
    let len = cs.len();
    let ghost start = out@;
    if len < width {
        let mut k: usize = 0;
        while k < width - len
            invariant
                len < width,
                k <= width - len,
                out@ == start + Seq::new(k as nat, |i: int| '0'),
            decreases width - len - k,
        {
            push_char(out, '0');
            assert(start + Seq::new((k + 1) as nat, |i: int| '0') =~= (start + Seq::new(k as nat, |i: int| '0')).push('0'));
            k = k + 1;
        }
    }
    let ghost mid = out@;
    push_all(out, digits.as_str());
    proof {
        if len < width {
            assert(out@ =~= start + padded(n as nat, width as nat));
        } else {
            assert(mid == start + Seq::<char>::empty());
            assert(out@ =~= start + padded(n as nat, width as nat));
        }
    }
}

impl Scalar {
    /// The value as text: `None` for null, decimal digits for an integer,
    /// `YYYY-MM-DD` for a date, the text itself otherwise.
    pub fn render(&self) -> (r: String)
        ensures
            r@ == render_spec(self@),
    {
        match self {
            Scalar::Null => {
                let mut out = String::new();
                push_all(&mut out, "None");
                proof {
                    reveal_strlit("None");
                }
                assert(out@ =~= seq!['N', 'o', 'n', 'e']);
                out
            },
            Scalar::Integer(n) => {
                let mut out = String::new();
                push_decimal(&mut out, *n);
                assert(out@ =~= dec(*n as nat));
                out
            },
            Scalar::Float(t) => t.clone(),
            Scalar::Date(d) => {
                let mut out = String::new();
                if d.year < 0 {
                    push_char(&mut out, '-');
                    let y: u64 = (0i64 - (d.year as i64)) as u64;
                    push_padded(&mut out, y, 4);
                } else {
                    push_padded(&mut out, d.year as u64, 4);
                }
                assert(out@ =~= year_text(d.year));
                push_char(&mut out, '-');
                push_padded(&mut out, d.month as u64, 2);
                push_char(&mut out, '-');
                push_padded(&mut out, d.day as u64, 2);
                assert(out@ =~= render_spec(self@));
                out
            },
            Scalar::Text(t) => t.clone(),
        }
    }
}

} // verus!
