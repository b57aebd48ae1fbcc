//! Turning element tag names into record and column keys.
use vstd::prelude::*;
use vstd::string::*;

verus! {

/// What `char::is_uppercase` answers for `c`.
pub uninterp spec fn upper_of(c: char) -> bool;

/// What `str::to_lowercase` returns for `s`.
pub uninterp spec fn lower_of(s: Seq<char>) -> Seq<char>;

pub open spec fn is_ascii_char(c: char) -> bool {
    (c as u32) < 128
}

pub open spec fn all_ascii(s: Seq<char>) -> bool {
    forall|i: int| 0 <= i < s.len() ==> is_ascii_char(#[trigger] s[i])
}

pub open spec fn is_ascii_upper(c: char) -> bool {
    'A' <= c && c <= 'Z'
}

/// The ASCII lower-case form of `c`; other characters stay as they are.
pub open spec fn ascii_lower_char(c: char) -> char {
    if is_ascii_upper(c) {
        (((c as u32) + 32) as u8) as char
    } else {
        c
    }
}

pub open spec fn ascii_lower(s: Seq<char>) -> Seq<char> {
    s.map_values(|c: char| ascii_lower_char(c))
}

/// Whether `c` is upper case: `A` to `Z` within ASCII, the Unicode property
/// beyond it.
pub open spec fn is_upper_spec(c: char) -> bool {
    if is_ascii_char(c) {
        is_ascii_upper(c)
    } else {
        upper_of(c)
    }
}

/// The lower-case form of `s`: the ASCII mapping on an ASCII string, the
/// Unicode mapping on any other.
pub open spec fn lowered(s: Seq<char>) -> Seq<char> {
    if all_ascii(s) {
        ascii_lower(s)
    } else {
        lower_of(s)
    }
}

/// Relies on `char::is_uppercase`: the Unicode `Uppercase` property, which
/// within ASCII holds of `A` to `Z` alone.
#[verifier::external_body]
fn is_upper(c: char) -> (r: bool)
    ensures
        is_ascii_char(c) ==> r == is_ascii_upper(c),
        !is_ascii_char(c) ==> r == upper_of(c),
{
    c.is_uppercase()
}

/// Relies on `str::to_lowercase`: the Unicode lower-case mapping, which on an
/// ASCII string maps `A` to `Z` to `a` to `z` and keeps every other character.
#[verifier::external_body]
fn lowercase(s: &str) -> (r: String)
    ensures
        all_ascii(s@) ==> r@ == ascii_lower(s@),
        !all_ascii(s@) ==> r@ == lower_of(s@),
{
    s.to_lowercase()
}

/// Relies on `str::chars`, collected: the characters of `s` in order.
#[verifier::external_body]
pub(crate) fn char_vec(s: &str) -> (r: Vec<char>)
    ensures
        r@ == s@,
{
    s.chars().collect()
}

/// Relies on `String::push`: appends one character.
#[verifier::external_body]
pub(crate) fn push_char(s: &mut String, c: char)
    ensures
        final(s)@ == old(s)@.push(c),
{
    s.push(c)
}

/// A separator goes after position `i` when the next character is upper case
/// and the one at `i` is not already a separator.
pub open spec fn sep_after(s: Seq<char>, i: int) -> bool {
    i + 1 < s.len() && is_upper_spec(s[i + 1]) && s[i] != '_'
}

/// The first `n` characters of `s`, each followed by a separator where
/// `sep_after` asks for one.
pub open spec fn spaced(s: Seq<char>, n: int) -> Seq<char>
    decreases n,
{
    if n <= 0 {
        seq![]
    } else {
        let p = spaced(s, n - 1).push(s[n - 1]);
        if sep_after(s, n - 1) {
            p.push('_')
        } else {
            p
        }
    }
}

pub open spec fn snake_spec(s: Seq<char>) -> Seq<char> {
    lowered(spaced(s, s.len() as int))
}

/// The key a tag name becomes: lower-cased as it is in short mode, converted
/// from camel case to snake case otherwise.
pub open spec fn normalize_spec(s: Seq<char>, short_names: bool) -> Seq<char> {
    if short_names {
        lowered(s)
    } else {
        snake_spec(s)
    }
}

/// Converts a camel-case name to snake case: a separator before each upper-case
/// character that does not follow one, then everything lower-cased.
pub fn to_snake(camel_string: &str) -> (r: String)
    ensures
        r@ == snake_spec(camel_string@),
{
    let chars = char_vec(camel_string);
    let n = chars.len();
    let mut out = String::new();
    let mut i: usize = 0;
    while i < n
        invariant
            n == chars@.len(),
            chars@ == camel_string@,
            i <= n,
            out@ == spaced(chars@, i as int),
        decreases n - i,
    {
        let c = chars[i];
        push_char(&mut out, c);
        if i + 1 < n && c != '_' {
            if is_upper(chars[i + 1]) {
                push_char(&mut out, '_');
            }
        }
        i = i + 1;
    }
    lowercase(out.as_str())
}

/// The key for a tag name in the given mode.
pub fn normalize(tag: &str, short_names: bool) -> (r: String)
    ensures
        r@ == normalize_spec(tag@, short_names),
{
    if short_names {
        lowercase(tag)
    } else {
        to_snake(tag)
    }
}


proof fn lemma_spaced_ascii(s: Seq<char>, n: int)
    requires
        all_ascii(s),
        0 <= n <= s.len(),
    ensures
        all_ascii(spaced(s, n)),
    decreases n,
{
    if n > 0 {
        lemma_spaced_ascii(s, n - 1);
        let p = spaced(s, n - 1).push(s[n - 1]);
        assert(all_ascii(p)) by {
            assert forall|i: int| 0 <= i < p.len() implies is_ascii_char(#[trigger] p[i]) by {
                if i < p.len() - 1 {
                    assert(p[i] == spaced(s, n - 1)[i]);
                }
            }
        }
        if sep_after(s, n - 1) {
            let q = p.push('_');
            assert forall|i: int| 0 <= i < q.len() implies is_ascii_char(#[trigger] q[i]) by {
                if i < q.len() - 1 {
                    assert(q[i] == p[i]);
                }
            }
        }
    }
}

/// Where no character after the first is upper case, spacing inserts nothing.
proof fn lemma_spaced_plain(s: Seq<char>, n: int)
    requires
        0 <= n <= s.len(),
        forall|i: int| 0 <= i < s.len() ==> !is_upper_spec(#[trigger] s[i]),
    ensures
        spaced(s, n) == s.subrange(0, n),
    decreases n,
{
    if n > 0 {
        lemma_spaced_plain(s, n - 1);
        assert(s.subrange(0, n - 1).push(s[n - 1]) =~= s.subrange(0, n));
    }
}

proof fn lemma_ascii_lower_settled(t: Seq<char>)
    requires
        all_ascii(t),
    ensures
        all_ascii(ascii_lower(t)),
        forall|i: int| 0 <= i < t.len() ==> !is_upper_spec(#[trigger] ascii_lower(t)[i]),
        ascii_lower(ascii_lower(t)) == ascii_lower(t),
{
    let y = ascii_lower(t);
    assert forall|i: int| 0 <= i < t.len() implies is_ascii_char(#[trigger] y[i])
        && !is_ascii_upper(y[i]) by {
        let c = t[i];
        assert(is_ascii_char(c));
        if is_ascii_upper(c) {
            assert(((((c as u32) + 32) as u8) as char) as u32 == (c as u32) + 32);
        }
    }
    assert(ascii_lower(y) =~= y);
}

/// Normalizing a key that came from an ASCII tag name changes nothing, in
/// either mode.
pub proof fn lemma_normalize_idempotent(s: Seq<char>, short_names: bool)
    requires
        all_ascii(s),
    ensures
        normalize_spec(normalize_spec(s, short_names), short_names) == normalize_spec(
            s,
            short_names,
        ),
{
    lemma_ascii_lower_settled(s);
    let t = spaced(s, s.len() as int);
    lemma_spaced_ascii(s, s.len() as int);
    lemma_ascii_lower_settled(t);
    if !short_names {
        let y = lowered(t);
        lemma_spaced_plain(y, y.len() as int);
        assert(y.subrange(0, y.len() as int) =~= y);
    }
}

} // verus!
