//! The binary codec: text to space-separated base-2 octets, and back.

use vstd::prelude::*;
use vstd::string::StrSliceExecFns;
use vstd::string::StringSliceAdditionalSpecFns;
use crate::errors::TransformError;
use crate::strutil::is_space_char;
use crate::strutil::spec_trim;
use crate::strutil::spec_trim_back;
use crate::strutil::spec_trim_front;
use crate::strutil::str_chars;
use crate::strutil::string_from_chars;
use crate::strutil::trim_chars;

verus! {

/// Whether `c` is a binary digit.
pub open spec fn is_bin_digit(c: char) -> bool {
    c == '0' || c == '1'
}

/// Whether every character of `t` is a binary digit.
pub open spec fn all_bin_digits(t: Seq<char>) -> bool {
    forall|k: int| 0 <= k < t.len() ==> is_bin_digit(t[k])
}

/// The value of a sequence of binary digit characters.
pub open spec fn spec_bin_val(t: Seq<char>) -> int
    decreases t.len(),
{
    if t.len() == 0 {
        0
    } else {
        spec_bin_val(t.drop_last()) * 2 + (if t.last() == '1' {
            1int
        } else {
            0int
        })
    }
}

/// The low `w` binary digits of `n`, most significant first.
pub open spec fn spec_bits(n: nat, w: nat) -> Seq<char>
    decreases w,
{
    if w == 0 {
        Seq::<char>::empty()
    } else {
        spec_bits(n / 2, (w - 1) as nat).push(
            if n % 2 == 1 {
                '1'
            } else {
                '0'
            },
        )
    }
}

/// The eight-digit zero-padded binary rendering of one byte.
pub open spec fn spec_octet(b: u8) -> Seq<char> {
    spec_bits(b as nat, 8)
}

/// The binary encoding of a byte sequence: one octet per byte, single
/// spaces between octets.
pub open spec fn spec_encode(bs: Seq<u8>) -> Seq<char>
    decreases bs.len(),
{
    if bs.len() == 0 {
        Seq::<char>::empty()
    } else if bs.len() == 1 {
        spec_octet(bs[0])
    } else {
        spec_octet(bs[0]) + seq![' '] + spec_encode(bs.drop_first())
    }
}

/// The fields of `s` under a split at every single space character,
/// as `str::split(' ')` produces them: an empty `s` yields one empty field,
/// and each space separates two (possibly empty) fields.
pub open spec fn split_spaces(s: Seq<char>) -> Seq<Seq<char>>
    decreases s.len(),
{
    if s.len() == 0 {
        seq![Seq::<char>::empty()]
    } else if s[0] == ' ' {
        seq![Seq::<char>::empty()] + split_spaces(s.drop_first())
    } else {
        let rest = split_spaces(s.drop_first());
        seq![seq![s[0]] + rest[0]] + rest.skip(1)
    }
}

pub proof fn lemma_split_spaces_len(s: Seq<char>)
    ensures
        split_spaces(s).len() >= 1,
    decreases s.len(),
{
    if s.len() > 0 {
        lemma_split_spaces_len(s.drop_first());
    }
}

/// Whether `t` is a well-formed binary octet token: nonempty, only binary
/// digits, value within byte range.
pub open spec fn valid_octet_token(t: Seq<char>) -> bool {
    t.len() > 0 && all_bin_digits(t) && spec_bin_val(t) <= 255
}

/// Whether every field of `ts` is a well-formed binary octet token.
pub open spec fn all_tokens_valid(ts: Seq<Seq<char>>) -> bool {
    forall|i: int| 0 <= i < ts.len() ==> valid_octet_token(ts[i])
}

/// The bytes encoded by `s`: `s` is trimmed, split on single spaces, and
/// each field read as a base-2 octet; any malformed field rejects the whole
/// input.
pub open spec fn spec_decode(s: Seq<char>) -> Option<Seq<u8>> {
    if all_tokens_valid(split_spaces(spec_trim(s))) {
        Some(
            Seq::new(
                split_spaces(spec_trim(s)).len(),
                |i: int| spec_bin_val(split_spaces(spec_trim(s))[i]) as u8,
            ),
        )
    } else {
        None
    }
}

/// The text whose characters are the given byte values.
pub open spec fn byte_chars(bs: Seq<u8>) -> Seq<char> {
    bs.map_values(|b: u8| b as char)
}

fn push_bits(out: &mut Vec<char>, n: u8, w: u8)
    ensures
        final(out)@ == old(out)@ + spec_bits(n as nat, w as nat),
    decreases w,
{
    if w > 0 {
        push_bits(out, n / 2, w - 1);
        out.push(
            if n % 2 == 1 {
                '1'
            } else {
                '0'
            },
        );
        assert(out@ =~= old(out)@ + spec_bits(n as nat, w as nat));
    } else {
        assert(out@ =~= old(out)@ + spec_bits(n as nat, 0));
    }
}

proof fn lemma_encode_snoc(bs: Seq<u8>, b: u8)
    ensures
        spec_encode(bs.push(b)) == if bs.len() == 0 {
            spec_octet(b)
        } else {
            spec_encode(bs) + seq![' '] + spec_octet(b)
        },
    decreases bs.len(),
{
    if bs.len() == 0 {
        assert(bs.push(b).len() == 1);
        assert(bs.push(b)[0] == b);
    } else {
        lemma_encode_snoc(bs.drop_first(), b);
        assert(bs.push(b).drop_first() =~= bs.drop_first().push(b));
        assert(bs.push(b)[0] == bs[0]);
        if bs.len() == 1 {
            assert(spec_encode(bs.push(b)) == spec_octet(bs[0]) + seq![' '] + spec_octet(b));
            assert(spec_encode(bs) == spec_octet(bs[0]));
        } else {
            assert(spec_encode(bs.push(b)) == spec_octet(bs[0]) + seq![' '] + (spec_encode(
                bs.drop_first(),
            ) + seq![' '] + spec_octet(b)));
            assert(spec_encode(bs.push(b)) =~= spec_encode(bs) + seq![' '] + spec_octet(b));
        }
    }
}

/// Two to the power `w`.
pub open spec fn two_pow(w: nat) -> nat
    decreases w,
{
    if w == 0 {
        1
    } else {
        2 * two_pow((w - 1) as nat)
    }
}

proof fn lemma_bits_shape(n: nat, w: nat)
    ensures
        spec_bits(n, w).len() == w,
        all_bin_digits(spec_bits(n, w)),
    decreases w,
{
    if w > 0 {
        lemma_bits_shape(n / 2, (w - 1) as nat);
        let b = spec_bits(n, w);
        assert forall|k: int| 0 <= k < b.len() implies is_bin_digit(b[k]) by {
            if k < w - 1 {
                assert(b[k] == spec_bits(n / 2, (w - 1) as nat)[k]);
            }
        }
    }
}

proof fn lemma_bits_val(n: nat, w: nat)
    requires
        n < two_pow(w),
    ensures
        spec_bin_val(spec_bits(n, w)) == n,
    decreases w,
{
    if w == 0 {
        assert(n == 0);
    } else {
        assert(n / 2 < two_pow((w - 1) as nat)) by (nonlinear_arith)
            requires
                n < 2 * two_pow((w - 1) as nat),
        ;
        lemma_bits_val(n / 2, (w - 1) as nat);
        lemma_bits_shape(n / 2, (w - 1) as nat);
        let b = spec_bits(n, w);
        assert(b.drop_last() =~= spec_bits(n / 2, (w - 1) as nat));
        assert(spec_bin_val(b) == (n / 2) * 2 + n % 2);
        assert((n / 2) * 2 + n % 2 == n) by (nonlinear_arith);
    }
}

proof fn lemma_split_token(t: Seq<char>)
    requires
        t.len() > 0,
        all_bin_digits(t),
    ensures
        split_spaces(t) == seq![t],
    decreases t.len(),
{
    assert(is_bin_digit(t[0]));
    assert(t[0] != ' ');
    let rest = split_spaces(t.drop_first());
    if t.len() == 1 {
        assert(t.drop_first() =~= Seq::<char>::empty());
        assert(rest == seq![Seq::<char>::empty()]);
        assert(seq![t[0]] + rest[0] =~= t);
        assert(split_spaces(t) =~= seq![t]);
    } else {
        assert(all_bin_digits(t.drop_first())) by {
            assert(forall|k: int|
                0 <= k < t.drop_first().len() ==> t.drop_first()[k] == t[k + 1]);
        }
        lemma_split_token(t.drop_first());
        assert(seq![t[0]] + rest[0] =~= t);
        assert(split_spaces(t) =~= seq![t]);
    }
}

proof fn lemma_split_concat(t: Seq<char>, s: Seq<char>)
    requires
        all_bin_digits(t),
    ensures
        split_spaces(t + seq![' '] + s) == seq![t] + split_spaces(s),
    decreases t.len(),
{
    lemma_split_spaces_len(s);
    let w = t + seq![' '] + s;
    if t.len() == 0 {
        assert(w[0] == ' ');
        assert(w.drop_first() =~= s);
        assert(t =~= Seq::<char>::empty());
        assert(split_spaces(w) =~= seq![t] + split_spaces(s));
    } else {
        assert(is_bin_digit(t[0]));
        assert(w[0] == t[0]);
        assert(w[0] != ' ');
        assert(all_bin_digits(t.drop_first())) by {
            assert(forall|k: int|
                0 <= k < t.drop_first().len() ==> t.drop_first()[k] == t[k + 1]);
        }
        lemma_split_concat(t.drop_first(), s);
        assert(w.drop_first() =~= t.drop_first() + seq![' '] + s);
        let rest = split_spaces(w.drop_first());
        assert(rest == seq![t.drop_first()] + split_spaces(s));
        assert(rest[0] == t.drop_first());
        assert(seq![w[0]] + rest[0] =~= t);
        assert(rest.skip(1) =~= split_spaces(s));
        assert(split_spaces(w) =~= seq![t] + split_spaces(s));
    }
}

proof fn lemma_encode_shape(bs: Seq<u8>)
    requires
        bs.len() > 0,
    ensures
        spec_encode(bs).len() > 0,
        is_bin_digit(spec_encode(bs)[0]),
        is_bin_digit(spec_encode(bs).last()),
    decreases bs.len(),
{
    lemma_bits_shape(bs[0] as nat, 8);
    if bs.len() == 1 {
    } else {
        lemma_encode_shape(bs.drop_first());
        let e = spec_encode(bs);
        let head = spec_octet(bs[0]);
        let tail = spec_encode(bs.drop_first());
        assert(e == head + seq![' '] + tail);
        assert(e[0] == head[0]);
        assert(e.last() == tail.last());
    }
}

proof fn lemma_split_encode(bs: Seq<u8>)
    requires
        bs.len() > 0,
    ensures
        split_spaces(spec_encode(bs)) == bs.map_values(|b: u8| spec_octet(b)),
    decreases bs.len(),
{
    lemma_bits_shape(bs[0] as nat, 8);
    if bs.len() == 1 {
        lemma_split_token(spec_octet(bs[0]));
        assert(split_spaces(spec_encode(bs)) =~= bs.map_values(|b: u8| spec_octet(b)));
    } else {
        lemma_split_encode(bs.drop_first());
        lemma_split_concat(spec_octet(bs[0]), spec_encode(bs.drop_first()));
        assert(split_spaces(spec_encode(bs)) =~= bs.map_values(|b: u8| spec_octet(b)));
    }
}

/// Decoding inverts encoding: for every nonempty byte sequence, encoding it
/// as space-separated base-2 octets and decoding the result returns exactly
/// the original bytes. (An empty sequence encodes to the empty string, which
/// the decoder rejects, so it is excluded.)
pub proof fn lemma_binary_round_trip(bs: Seq<u8>)
    requires
        bs.len() > 0,
    ensures
        spec_decode(spec_encode(bs)) == Some(bs),
{
    let e = spec_encode(bs);
    lemma_encode_shape(bs);
    assert(!is_space_char(e[0]));
    assert(!is_space_char(e.last()));
    assert(spec_trim_front(e) == e);
    assert(spec_trim_back(e) == e);
    assert(spec_trim(e) == e);
    lemma_split_encode(bs);
    let ts = split_spaces(e);
    assert(two_pow(8) == 256) by {
        reveal_with_fuel(two_pow, 9);
    }
    assert forall|i: int| 0 <= i < ts.len() implies valid_octet_token(ts[i]) by {
        assert(ts[i] == spec_octet(bs[i]));
        lemma_bits_shape(bs[i] as nat, 8);
        lemma_bits_val(bs[i] as nat, 8);
    }
    assert(spec_decode(e) is Some);
    let out = spec_decode(e)->0;
    assert forall|i: int| 0 <= i < bs.len() implies out[i] == bs[i] by {
        assert(ts[i] == spec_octet(bs[i]));
        lemma_bits_val(bs[i] as nat, 8);
    }
    assert(out =~= bs);
}

/// Encode every byte of the input as an eight-digit base-2 octet, the
/// octets joined by single spaces.
pub fn binary_encode(input: &str) -> (r: String)
    ensures
        r@ == spec_encode(input.spec_bytes()),
{
    let bytes = input.as_bytes_vec();
    let n = bytes.len();
    let mut out: Vec<char> = Vec::new();
    let mut i: usize = 0;
    while i < n
        invariant
            bytes@ == input.spec_bytes(),
            n == bytes@.len(),
            i <= n,
            out@ == spec_encode(bytes@.take(i as int)),
        decreases n - i,
    {
        if i > 0 {
            out.push(' ');
        }
        push_bits(&mut out, bytes[i], 8);
        proof {
            lemma_encode_snoc(bytes@.take(i as int), bytes@[i as int]);
            assert(bytes@.take(i as int).push(bytes@[i as int]) =~= bytes@.take(i + 1));
            if i == 0 {
                assert(out@ =~= spec_encode(bytes@.take(i + 1)));
            } else {
                assert(out@ =~= spec_encode(bytes@.take(i as int)) + seq![' '] + spec_octet(
                    bytes@[i as int],
                ));
            }
        }
        i += 1;
    }
    proof {
        assert(bytes@.take(n as int) =~= bytes@);
    }
    string_from_chars(&out)
}

/// The fields of `v` from position `i` on, split at every space.
fn split_fields_from(v: &Vec<char>, i: usize) -> (r: Vec<Vec<char>>)
    requires
        i <= v@.len(),
    ensures
        r@.map_values(|t: Vec<char>| t@) == split_spaces(v@.skip(i as int)),
        r@.len() >= 1,
    decreases v@.len() - i,
{
    let n = v.len();
    if i == n {
        let mut r: Vec<Vec<char>> = Vec::new();
        r.push(Vec::new());
        assert(v@.skip(i as int) =~= Seq::<char>::empty());
        assert(r@.map_values(|t: Vec<char>| t@) =~= split_spaces(v@.skip(i as int)));
        r
    } else if v[i] == ' ' {
        let mut r = split_fields_from(v, i + 1);
        let ghost prev = r@;
        r.insert(0, Vec::new());
        proof {
            assert(v@.skip(i as int)[0] == ' ');
            assert(v@.skip(i as int).drop_first() =~= v@.skip(i + 1));
            assert(r@.map_values(|t: Vec<char>| t@) =~= split_spaces(v@.skip(i as int)));
        }
        r
    } else {
        let mut r = split_fields_from(v, i + 1);
        let ghost prev = r@;
        let mut first = r.remove(0);
        let ghost pf = first@;
        first.insert(0, v[i]);
        r.insert(0, first);
        proof {
            assert(v@.skip(i as int)[0] == v@[i as int]);
            assert(v@.skip(i as int).drop_first() =~= v@.skip(i + 1));
            let ghost rest = split_spaces(v@.skip(i + 1));
            assert(pf == rest[0]);
            assert(first@ =~= seq![v@[i as int]] + rest[0]);
            assert(r@.map_values(|t: Vec<char>| t@) =~= seq![seq![v@[i as int]] + rest[0]]
                + rest.skip(1));
        }
        r
    }
}

proof fn lemma_bin_val_nonneg(t: Seq<char>)
    ensures
        spec_bin_val(t) >= 0,
    decreases t.len(),
{
    if t.len() > 0 {
        lemma_bin_val_nonneg(t.drop_last());
    }
}

proof fn lemma_bin_val_mono(t: Seq<char>, i: int)
    requires
        0 <= i <= t.len(),
    ensures
        spec_bin_val(t.take(i)) <= spec_bin_val(t),
    decreases t.len() - i,
{
    if i < t.len() {
        lemma_bin_val_mono(t, i + 1);
        assert(t.take(i + 1).drop_last() =~= t.take(i));
        assert(t.take(i + 1).last() == t[i]);
        lemma_bin_val_nonneg(t.take(i));
    } else {
        assert(t.take(i) =~= t);
    }
}

/// Read one field as a base-2 octet.
fn octet_value(t: &Vec<char>) -> (r: Option<u8>)
    ensures
        match r {
            Some(b) => valid_octet_token(t@) && b == spec_bin_val(t@),
            None => !valid_octet_token(t@),
        },
{
    let n = t.len();
    if n == 0 {
        return None;
    }
    let mut acc: u16 = 0;
    let mut i: usize = 0;
    while i < n
        invariant
            n == t@.len(),
            i <= n,
            forall|k: int| 0 <= k < i ==> is_bin_digit(t@[k]),
            acc == spec_bin_val(t@.take(i as int)),
            acc <= 255,
        decreases n - i,
    {
        let c = t[i];
        if c != '0' && c != '1' {
            assert(!is_bin_digit(t@[i as int]));
            assert(!all_bin_digits(t@));
            return None;
        }
        proof {
            assert(t@.take(i + 1).drop_last() =~= t@.take(i as int));
            assert(t@.take(i + 1).last() == t@[i as int]);
        }
        acc = acc * 2 + (if c == '1' {
            1
        } else {
            0
        });
        if acc > 255 {
            proof {
                lemma_bin_val_mono(t@, i + 1);
                assert(spec_bin_val(t@) > 255);
            }
            return None;
        }
        i += 1;
    }
    proof {
        assert(t@.take(n as int) =~= t@);
        assert(all_bin_digits(t@));
    }
    Some(acc as u8)
}

/// Decode space-separated base-2 octets into the text whose characters are
/// the encoded byte values. The input is trimmed first; any field that is
/// not a valid octet rejects the whole input.
pub fn binary_decode(input: &str) -> (r: Result<String, TransformError>)
    ensures
        match spec_decode(input@) {
            Some(bs) => r is Ok && r->Ok_0@ == byte_chars(bs),
            None => r == Err::<String, TransformError>(TransformError::InvalidEncoding),
        },
{
    let v = str_chars(input);
    let trimmed = trim_chars(&v);
    let fields = split_fields_from(&trimmed, 0);
    proof {
        assert(trimmed@.skip(0) =~= trimmed@);
    }
    let ghost ts = split_spaces(spec_trim(input@));
    let m = fields.len();
    let mut out: Vec<char> = Vec::new();
    let mut i: usize = 0;
    while i < m
        invariant
            fields@.map_values(|t: Vec<char>| t@) == ts,
            ts == split_spaces(spec_trim(input@)),
            m == fields@.len(),
            i <= m,
            forall|k: int| 0 <= k < i ==> valid_octet_token(ts[k]),
            out@.len() == i,
            forall|k: int| 0 <= k < i ==> out@[k] == spec_bin_val(ts[k]) as u8 as char,
        decreases m - i,
    {
        assert(fields@[i as int]@ == ts[i as int]);
        match octet_value(&fields[i]) {
            Some(b) => {
                out.push(b as char);
            },
            None => {
                assert(!valid_octet_token(ts[i as int]));
                assert(!all_tokens_valid(ts));
                return Err(TransformError::InvalidEncoding);
            },
        }
        i += 1;
    }
    proof {
        assert(all_tokens_valid(ts));
        let bs = spec_decode(input@)->0;
        assert(out@ =~= byte_chars(bs));
    }
    Ok(string_from_chars(&out))
}

} // verus!
