//! Which strings read as a floating-point literal. The grammar is the one
//! that `str::parse` documents for double-precision numbers:
//! `Sign? ('inf' | 'infinity' | 'nan' | Number)`, where
//! `Number ::= (Digit+ | Digit+ '.' Digit* | Digit* '.' Digit+) Exp?` and
//! `Exp ::= 'e' Sign? Digit+`, letters in either case.
use vstd::prelude::*;

use crate::normalize::{ascii_lower, ascii_lower_char};
use crate::scalar::is_digit;

verus! {

pub open spec fn is_sign(c: char) -> bool {
    c == '+' || c == '-'
}

pub open spec fn is_exp_mark(c: char) -> bool {
    c == 'e' || c == 'E'
}

pub open spec fn all_digits(d: Seq<char>) -> bool {
    d.len() > 0 && forall|i: int| 0 <= i < d.len() ==> is_digit(#[trigger] d[i])
}

/// Digits with at most one decimal point among them, and at least one digit.
pub open spec fn mantissa_ok(m: Seq<char>) -> bool {
    &&& forall|i: int| 0 <= i < m.len() ==> is_digit(#[trigger] m[i]) || m[i] == '.'
    &&& forall|i: int, j: int| 0 <= i < j < m.len() ==> !(#[trigger] m[i] == '.' && #[trigger] m[j] == '.')
    &&& exists|i: int| 0 <= i < m.len() && is_digit(#[trigger] m[i])
}

/// An exponent mark, an optional sign, then one or more digits.
pub open spec fn exponent_ok(e: Seq<char>) -> bool {
    &&& e.len() >= 2
    &&& is_exp_mark(e[0])
    &&& if is_sign(e[1]) {
        all_digits(e.subrange(2, e.len() as int))
    } else {
        all_digits(e.subrange(1, e.len() as int))
    }
}

pub open spec fn number_ok(s: Seq<char>) -> bool {
    exists|k: int|
        0 <= k <= s.len() && #[trigger] mantissa_ok(s.subrange(0, k)) && (k == s.len()
            || exponent_ok(s.subrange(k, s.len() as int)))
}

pub open spec fn special_ok(s: Seq<char>) -> bool {
    let l = ascii_lower(s);
    l == seq!['i', 'n', 'f'] || l == seq!['i', 'n', 'f', 'i', 'n', 'i', 't', 'y'] || l == seq![
        'n',
        'a',
        'n',
    ]
}

pub open spec fn unsigned_float_ok(s: Seq<char>) -> bool {
    special_ok(s) || number_ok(s)
}

/// Whether `s` is a floating-point literal, with an optional leading sign.
pub open spec fn float_ok(s: Seq<char>) -> bool {
    if s.len() > 0 && is_sign(s[0]) {
        unsigned_float_ok(s.drop_first())
    } else {
        unsigned_float_ok(s)
    }
}

fn lower_char(c: char) -> (r: char)
    ensures
        r == ascii_lower_char(c),
{
    if 'A' <= c && c <= 'Z' {
        (((c as u32) + 32) as u8) as char
    } else {
        c
    }
}

/// Whether the characters of `s` from `start` on spell `word`, ignoring ASCII
/// case; `word` is in lower case.
fn spells(s: &Vec<char>, start: usize, word: &Vec<char>) -> (r: bool)
    requires
        start <= s@.len(),
    ensures
        r == (ascii_lower(s@.subrange(start as int, s@.len() as int)) == word@),
{
    let ghost t = s@.subrange(start as int, s@.len() as int);
    if s.len() - start != word.len() {
        assert(ascii_lower(t).len() != word@.len());
        return false;
    }
    let n = s.len();
    let mut i: usize = 0;
    while i < word.len()
        invariant
            n == s@.len(),
            start <= s@.len(),
            t == s@.subrange(start as int, s@.len() as int),
            t.len() == word@.len(),
            start + word@.len() == s@.len(),
            i <= word@.len(),
            forall|j: int| 0 <= j < i ==> ascii_lower(t)[j] == word@[j],
        decreases word@.len() - i,
    {
        let j: usize = start + i;
        if lower_char(s[j]) != word[i] {
            assert(ascii_lower(t)[i as int] != word@[i as int]);
            return false;
        }
        i = i + 1;
    }
    assert(ascii_lower(t) =~= word@);
    true
}

fn all_digits_from(s: &Vec<char>, start: usize) -> (r: bool)
    requires
        start <= s@.len(),
    ensures
        r == all_digits(s@.subrange(start as int, s@.len() as int)),
{
    let ghost t = s@.subrange(start as int, s@.len() as int);
    if start == s.len() {
        return false;
    }
    let mut i: usize = start;
    while i < s.len()
        invariant
            start <= i <= s@.len(),
            t == s@.subrange(start as int, s@.len() as int),
            forall|j: int| start <= j < i ==> is_digit(#[trigger] s@[j]),
        decreases s@.len() - i,
    {
        if !('0' <= s[i] && s[i] <= '9') {
            assert(!is_digit(t[i - start]));
            return false;
        }
        i = i + 1;
    }
    assert forall|j: int| 0 <= j < t.len() implies is_digit(#[trigger] t[j]) by {
        assert(t[j] == s@[j + start]);
    }
    true
}

/// Whether the first `k` characters of `s` form a mantissa.
fn mantissa_check(s: &Vec<char>, k: usize) -> (r: bool)
    requires
        k <= s@.len(),
    ensures
        r == mantissa_ok(s@.subrange(0, k as int)),
{
    let ghost m = s@.subrange(0, k as int);
    let mut dot: Option<usize> = None;
    let mut digit: Option<usize> = None;
    let mut i: usize = 0;
    while i < k
        invariant
            k <= s@.len(),
            m == s@.subrange(0, k as int),
            i <= k,
            forall|j: int| 0 <= j < i ==> is_digit(#[trigger] m[j]) || m[j] == '.',
            forall|a: int, b: int| 0 <= a < b < i ==> !(#[trigger] m[a] == '.' && #[trigger] m[b] == '.'),
            match dot {
                Some(d) => d < i && m[d as int] == '.',
                None => forall|j: int| 0 <= j < i ==> m[j] != '.',
            },
            match digit {
                Some(d) => d < i && is_digit(m[d as int]),
                None => forall|j: int| 0 <= j < i ==> !is_digit(#[trigger] m[j]),
            },
        decreases k - i,
    {
        let c = s[i];
        if '0' <= c && c <= '9' {
            digit = Some(i);
        } else if c == '.' {
            if let Some(d) = dot {
                assert(m[d as int] == '.' && m[i as int] == '.');
                return false;
            }
            dot = Some(i);
        } else {
            assert(!(is_digit(m[i as int]) || m[i as int] == '.'));
            return false;
        }
        i = i + 1;
    }
    match digit {
        Some(d) => {
            assert(is_digit(m[d as int]));
            true
        },
        None => false,
    }
}

/// Whether the characters of `s` from `k` on form an exponent.
fn exponent_check(s: &Vec<char>, k: usize) -> (r: bool)
    requires
        k <= s@.len(),
    ensures
        r == exponent_ok(s@.subrange(k as int, s@.len() as int)),
{
    let ghost e = s@.subrange(k as int, s@.len() as int);
    if s.len() - k < 2 {
        return false;
    }
    if !(s[k] == 'e' || s[k] == 'E') {
        return false;
    }
    let c = s[k + 1];
    if c == '+' || c == '-' {
        assert(e.subrange(2, e.len() as int) =~= s@.subrange(k + 2, s@.len() as int));
        all_digits_from(s, k + 2)
    } else {
        assert(e.subrange(1, e.len() as int) =~= s@.subrange(k + 1, s@.len() as int));
        all_digits_from(s, k + 1)
    }
}

/// Whether the characters of `s` from `start` on form a number.
fn number_check(s: &Vec<char>, start: usize) -> (r: bool)
    requires
        start <= s@.len(),
    ensures
        r == number_ok(s@.subrange(start as int, s@.len() as int)),
{
    let ghost t = s@.subrange(start as int, s@.len() as int);
    let mut k: usize = start;
    while k < s.len() && !(s[k] == 'e' || s[k] == 'E')
        invariant
            start <= k <= s@.len(),
            forall|j: int| start <= j < k ==> !is_exp_mark(#[trigger] s@[j]),
        decreases s@.len() - k,
    {
        k = k + 1;
    }
    let ghost kk = k - start;
    let mut owned: Vec<char> = Vec::new();
    let mut i: usize = start;
    while i < s.len()
        invariant
            start <= i <= s@.len(),
            owned@ == s@.subrange(start as int, i as int),
        decreases s@.len() - i,
    {
        owned.push(s[i]);
        assert(s@.subrange(start as int, i + 1) =~= s@.subrange(start as int, i as int).push(s@[i as int]));
        i = i + 1;
    }
    assert(owned@ =~= t);
    let m = mantissa_check(&owned, k - start);
    let x = k == s.len() || exponent_check(&owned, k - start);
    proof {
        assert(t.subrange(0, kk) == owned@.subrange(0, kk));
        if m && x {
            assert(mantissa_ok(t.subrange(0, kk)));
        } else if number_ok(t) {
            let k2 = choose|k2: int|
                0 <= k2 <= t.len() && #[trigger] mantissa_ok(t.subrange(0, k2)) && (k2 == t.len()
                    || exponent_ok(t.subrange(k2, t.len() as int)));
            if k2 < kk {
                assert(t.subrange(k2, t.len() as int)[0] == s@[start + k2]);
            } else if k2 > kk {
                assert(t.subrange(0, k2)[kk] == s@[start + kk]);
            }
        }
    }
    m && x
}

fn special_check(s: &Vec<char>, start: usize) -> (r: bool)
    requires
        start <= s@.len(),
    ensures
        r == special_ok(s@.subrange(start as int, s@.len() as int)),
{
    let inf = vec!['i', 'n', 'f'];
    let infinity = vec!['i', 'n', 'f', 'i', 'n', 'i', 't', 'y'];
    let nan = vec!['n', 'a', 'n'];
    assert(inf@ =~= seq!['i', 'n', 'f']);
    assert(infinity@ =~= seq!['i', 'n', 'f', 'i', 'n', 'i', 't', 'y']);
    assert(nan@ =~= seq!['n', 'a', 'n']);
    spells(s, start, &inf) || spells(s, start, &infinity) || spells(s, start, &nan)
}

/// Whether `text` reads as a floating-point literal: an optional sign, then
/// `inf`, `infinity` or `nan` in any case, or decimal digits with at most one
/// point and an optional exponent.
pub fn is_float_literal(text: &Vec<char>) -> (r: bool)
    ensures
        r == float_ok(text@),
{
    let start: usize = if text.len() > 0 && (text[0] == '+' || text[0] == '-') {
        1
    } else {
        0
    };
    assert(text@.subrange(start as int, text@.len() as int) =~= if start == 1 {
        text@.drop_first()
    } else {
        text@
    });
    special_check(text, start) || number_check(text, start)
}

} // verus!
