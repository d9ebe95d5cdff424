//! The case-alternating transformation: uppercase at even character
//! indices, lowercase at odd ones, each mapping emitted as produced.

use vstd::prelude::*;
use crate::strutil::str_chars;
use crate::strutil::string_from_chars;

verus! {

/// Whether `c` is an ASCII lowercase letter.
pub open spec fn is_ascii_lower(c: char) -> bool {
    0x61 <= c as u32 && c as u32 <= 0x7A
}

/// Whether `c` is an ASCII uppercase letter.
pub open spec fn is_ascii_upper(c: char) -> bool {
    0x41 <= c as u32 && c as u32 <= 0x5A
}

/// The ASCII uppercase counterpart of an ASCII lowercase letter.
pub open spec fn ascii_to_upper(c: char) -> char {
    ((c as u32) - 0x20) as char
}

/// The ASCII lowercase counterpart of an ASCII uppercase letter.
pub open spec fn ascii_to_lower(c: char) -> char {
    ((c as u32) + 0x20) as char
}

/// The Unicode uppercase mapping of a character that is not an ASCII
/// letter, as `char::to_uppercase` yields it.
pub uninterp spec fn upper_ext(c: char) -> Seq<char>;

/// The Unicode lowercase mapping of a character that is not an ASCII
/// letter, as `char::to_lowercase` yields it.
pub uninterp spec fn lower_ext(c: char) -> Seq<char>;

/// The Unicode uppercase mapping of `c`: ASCII letters map to their single
/// ASCII uppercase counterpart (uppercase ones to themselves), everything
/// else to its Unicode mapping.
pub open spec fn upper_of(c: char) -> Seq<char> {
    if is_ascii_lower(c) {
        seq![ascii_to_upper(c)]
    } else if is_ascii_upper(c) {
        seq![c]
    } else {
        upper_ext(c)
    }
}

/// The Unicode lowercase mapping of `c`: ASCII letters map to their single
/// ASCII lowercase counterpart (lowercase ones to themselves), everything
/// else to its Unicode mapping.
pub open spec fn lower_of(c: char) -> Seq<char> {
    if is_ascii_upper(c) {
        seq![ascii_to_lower(c)]
    } else if is_ascii_lower(c) {
        seq![c]
    } else {
        lower_ext(c)
    }
}

/// Relies on `char::to_uppercase`: ASCII letters map to their single ASCII
/// uppercase counterpart, and every other character to its Unicode
/// uppercase mapping, a function of the character alone.
#[verifier::external_body]
fn upper_chars(c: char) -> (r: Vec<char>)
    ensures
        r@ == upper_of(c),
        !is_ascii_lower(c) && !is_ascii_upper(c) ==> r@ == upper_ext(c),
        r@.len() >= 1,
{
    c.to_uppercase().collect()
}

/// Relies on `char::to_lowercase`: ASCII letters map to their single ASCII
/// lowercase counterpart, and every other character to its Unicode
/// lowercase mapping, a function of the character alone.
#[verifier::external_body]
fn lower_chars(c: char) -> (r: Vec<char>)
    ensures
        r@ == lower_of(c),
        !is_ascii_lower(c) && !is_ascii_upper(c) ==> r@ == lower_ext(c),
        r@.len() >= 1,
{
    c.to_lowercase().collect()
}

/// The characters emitted for the character `c` standing at index `i`.
pub open spec fn spec_case_at(i: int, c: char) -> Seq<char> {
    if i % 2 == 0 {
        upper_of(c)
    } else {
        lower_of(c)
    }
}

/// The case-alternated rendering of the first `i` characters of `s`.
pub open spec fn spec_spongebob_prefix(s: Seq<char>, i: int) -> Seq<char>
    decreases i,
{
    if i <= 0 {
        Seq::<char>::empty()
    } else {
        spec_spongebob_prefix(s, i - 1) + spec_case_at(i - 1, s[i - 1])
    }
}

/// The case-alternated rendering of `s`: every character at an even index
/// uppercased, every character at an odd index lowercased.
pub open spec fn spec_spongebob(s: Seq<char>) -> Seq<char> {
    spec_spongebob_prefix(s, s.len() as int)
}

/// Alternate letter case by character index: even index uppercase, odd
/// index lowercase. Multi-character case mappings are emitted in full, and
/// the index counts input characters, not emitted ones.
pub fn spongebob(input: &str) -> (r: String)
    ensures
        r@ == spec_spongebob(input@),
{
    let v = str_chars(input);
    let n = v.len();
    let mut out: Vec<char> = Vec::new();
    let mut i: usize = 0;
    while i < n
        invariant
            v@ == input@,
            n == v@.len(),
            i <= n,
            out@ == spec_spongebob_prefix(input@, i as int),
        decreases n - i,
    {
        let mut mapped = if i % 2 == 0 {
            upper_chars(v[i])
        } else {
            lower_chars(v[i])
        };
        out.append(&mut mapped);
        i += 1;
    }
    string_from_chars(&out)
}

/// Whether every character of `s` is an ASCII letter.
pub open spec fn all_ascii_letters(s: Seq<char>) -> bool {
    forall|k: int| 0 <= k < s.len() ==> is_ascii_lower(#[trigger] s[k]) || is_ascii_upper(s[k])
}

/// The single character the case alternation emits for an ASCII letter `c`
/// standing at index `i`.
pub open spec fn sb_char(i: int, c: char) -> char {
    if i % 2 == 0 {
        if is_ascii_lower(c) {
            ascii_to_upper(c)
        } else {
            c
        }
    } else {
        if is_ascii_upper(c) {
            ascii_to_lower(c)
        } else {
            c
        }
    }
}

proof fn lemma_sb_prefix(s: Seq<char>, i: int)
    requires
        all_ascii_letters(s),
        0 <= i <= s.len(),
    ensures
        spec_spongebob_prefix(s, i) == Seq::new(i as nat, |k: int| sb_char(k, s[k])),
    decreases i,
{
    if i > 0 {
        lemma_sb_prefix(s, i - 1);
        let c = s[i - 1];
        assert(is_ascii_lower(c) || is_ascii_upper(c));
        if is_ascii_lower(c) {
            assert(0x41 <= (c as u32) - 0x20 && (c as u32) - 0x20 <= 0x5A);
        }
        assert(spec_case_at(i - 1, c) =~= seq![sb_char(i - 1, c)]);
        assert(spec_spongebob_prefix(s, i) =~= Seq::new(i as nat, |k: int| sb_char(k, s[k])));
    } else {
        assert(spec_spongebob_prefix(s, i) =~= Seq::new(i as nat, |k: int| sb_char(k, s[k])));
    }
}

/// On text made entirely of ASCII letters, the case alternation is
/// idempotent: alternating a text that is already case-alternated changes
/// nothing, so the pattern it imposes is a fixed point of the
/// transformation.
pub proof fn lemma_spongebob_ascii_idempotent(s: Seq<char>)
    requires
        all_ascii_letters(s),
    ensures
        spec_spongebob(spec_spongebob(s)) == spec_spongebob(s),
{
    let out = Seq::new(s.len(), |k: int| sb_char(k, s[k]));
    lemma_sb_prefix(s, s.len() as int);
    assert(spec_spongebob(s) == out);
    assert forall|k: int| 0 <= k < out.len() implies is_ascii_lower(#[trigger] out[k])
        || is_ascii_upper(out[k]) by {
        let c = s[k];
        if is_ascii_lower(c) {
            assert(0x41 <= (c as u32) - 0x20 && (c as u32) - 0x20 <= 0x5A);
            assert((ascii_to_upper(c) as u32) == (c as u32) - 0x20);
        } else {
            assert(0x61 <= (c as u32) + 0x20 && (c as u32) + 0x20 <= 0x7A);
            assert((ascii_to_lower(c) as u32) == (c as u32) + 0x20);
        }
    }
    lemma_sb_prefix(out, out.len() as int);
    assert forall|k: int| 0 <= k < out.len() implies sb_char(k, out[k]) == out[k] by {
        let c = s[k];
        if is_ascii_lower(c) {
            assert((ascii_to_upper(c) as u32) == (c as u32) - 0x20);
        } else {
            assert((ascii_to_lower(c) as u32) == (c as u32) + 0x20);
        }
    }
    assert(spec_spongebob(out) =~= out);
}

} // verus!
