//! The clock-derived generators: the Unix-epoch timestamp, and the random
//! (version 4) and time-ordered (version 7) unique identifiers.

use vstd::prelude::*;
use crate::strutil::format_i64;
use crate::strutil::spec_i64_dec;

verus! {

/// One reading of the system clock: whole seconds since the Unix epoch and
/// the fractional nanosecond, which carries the same sign as the seconds.
pub struct ClockReading {
    pub second: i64,
    pub nanosecond: i32,
}

/// Relies on `jiff::Timestamp::now` with `as_second` and
/// `subsec_nanosecond`: the fractional nanosecond of a timestamp lies in
/// `-999_999_999..=999_999_999`.
#[verifier::external_body]
pub fn now() -> (r: ClockReading)
    ensures
        -999_999_999 <= r.nanosecond <= 999_999_999,
{
    let ts = jiff::Timestamp::now();
    ClockReading { second: ts.as_second(), nanosecond: ts.subsec_nanosecond() }
}

/// The current UTC time as a decimal Unix epoch-seconds string.
pub fn get_iso_timestamp() -> (r: String)
    ensures
        exists|s: int| i64::MIN <= s <= i64::MAX && r@ == spec_i64_dec(s),
{
    let t = now();
    let r = format_i64(t.second);
    proof {
        assert(r@ == spec_i64_dec(t.second as int));
    }
    r
}

/// The lowercase hexadecimal digit character for a value below sixteen.
pub open spec fn hex_digit(d: int) -> char {
    if d == 0 {
        '0'
    } else if d == 1 {
        '1'
    } else if d == 2 {
        '2'
    } else if d == 3 {
        '3'
    } else if d == 4 {
        '4'
    } else if d == 5 {
        '5'
    } else if d == 6 {
        '6'
    } else if d == 7 {
        '7'
    } else if d == 8 {
        '8'
    } else if d == 9 {
        '9'
    } else if d == 10 {
        'a'
    } else if d == 11 {
        'b'
    } else if d == 12 {
        'c'
    } else if d == 13 {
        'd'
    } else if d == 14 {
        'e'
    } else {
        'f'
    }
}

/// The low `w` hexadecimal digits of `n`, most significant first.
pub open spec fn spec_hex(n: nat, w: nat) -> Seq<char>
    decreases w,
{
    if w == 0 {
        Seq::<char>::empty()
    } else {
        spec_hex(n / 16, (w - 1) as nat).push(hex_digit((n % 16) as int))
    }
}

/// Sixteen to the power `w`.
pub open spec fn pow16(w: nat) -> nat
    decreases w,
{
    if w == 0 {
        1
    } else {
        16 * pow16((w - 1) as nat)
    }
}

/// Whether `c` is a lowercase hexadecimal digit.
pub open spec fn is_lower_hex(c: char) -> bool {
    (0x30 <= c as u32 && c as u32 <= 0x39) || (0x61 <= c as u32 && c as u32 <= 0x66)
}

/// The canonical hyphenated lowercase text form of an RFC 4122 UUID with
/// the given version digit: 8-4-4-4-12 lowercase hexadecimal digits, the
/// version digit at index 14 and a variant digit of `8`, `9`, `a` or `b`
/// at index 19.
pub open spec fn spec_uuid_shape(s: Seq<char>, version: char) -> bool {
    &&& s.len() == 36
    &&& s[8] == '-'
    &&& s[13] == '-'
    &&& s[18] == '-'
    &&& s[23] == '-'
    &&& s[14] == version
    &&& (forall|k: int|
        0 <= k < 36 && k != 8 && k != 13 && k != 18 && k != 23 ==> is_lower_hex(#[trigger] s[k]))
    &&& (s[19] == '8' || s[19] == '9' || s[19] == 'a' || s[19] == 'b')
}

/// Whether the first two groups of `s` spell the 48-bit value `ms` in
/// hexadecimal, most significant digit first.
pub open spec fn spec_uuid7_time_prefix(s: Seq<char>, ms: nat) -> bool {
    &&& s.subrange(0, 8) == spec_hex(ms, 12).subrange(0, 8)
    &&& s.subrange(9, 13) == spec_hex(ms, 12).subrange(8, 12)
}

/// Relies on `uuid::Uuid::new_v4` and its hyphenated rendering: the result
/// is the canonical lowercase hyphenated form of a random version-4
/// RFC 4122 UUID.
#[verifier::external_body]
pub fn gen_uuid4() -> (r: String)
    ensures
        spec_uuid_shape(r@, '4'),
{
    uuid::Uuid::new_v4().as_hyphenated().to_string()
}

/// Relies on `uuid::Uuid::new_v7` over `uuid::Timestamp::from_unix` with
/// `NoContext`: the result is the canonical lowercase hyphenated form of a
/// version-7 RFC 4122 UUID whose first 48 bits hold the timestamp's whole
/// milliseconds, most significant byte first.
#[verifier::external_body]
fn uuid7_from_unix(secs: u64, nanos: u32) -> (r: String)
    requires
        nanos < 1_000_000_000,
        secs * 1000 + nanos / 1_000_000 < 0x1000000000000,
    ensures
        spec_uuid_shape(r@, '7'),
        spec_uuid7_time_prefix(r@, (secs * 1000 + nanos / 1_000_000) as nat),
{
    uuid::Uuid::new_v7(uuid::Timestamp::from_unix(uuid::NoContext, secs, nanos))
        .as_hyphenated()
        .to_string()
}

/// The clock reading's seconds, clamped to the Unix-era range the
/// identifier's 48-bit millisecond field can hold.
pub open spec fn spec_clamped_second(s: int) -> int {
    if s < 0 {
        0
    } else if s > 253_402_207_200 {
        253_402_207_200
    } else {
        s
    }
}

/// The clock reading's fractional nanosecond, clamped to one second.
pub open spec fn spec_clamped_nano(n: int) -> int {
    if n < 0 {
        0
    } else if n > 999_999_999 {
        999_999_999
    } else {
        n
    }
}

/// The whole milliseconds a clock reading contributes to an identifier.
pub open spec fn spec_uuid7_millis(s: int, n: int) -> nat {
    (spec_clamped_second(s) * 1000 + spec_clamped_nano(n) / 1_000_000) as nat
}

/// Build the version-7 identifier for one clock reading.
pub fn make_uuid7(second: i64, nanosecond: i32) -> (r: String)
    ensures
        spec_uuid_shape(r@, '7'),
        spec_uuid7_time_prefix(r@, spec_uuid7_millis(second as int, nanosecond as int)),
{
    let secs: u64 = if second < 0 {
        0
    } else if second > 253_402_207_200 {
        253_402_207_200
    } else {
        second as u64
    };
    let nanos: u32 = if nanosecond < 0 {
        0
    } else if nanosecond > 999_999_999 {
        999_999_999
    } else {
        nanosecond as u32
    };
    uuid7_from_unix(secs, nanos)
}

/// Generate a time-ordered (version 7) UUID seeded from the current UTC
/// time, in canonical hyphenated lowercase text form.
pub fn gen_uuid7() -> (r: String)
    ensures
        spec_uuid_shape(r@, '7'),
        exists|s: int, n: int|
            #[trigger] spec_uuid7_time_prefix(r@, spec_uuid7_millis(s, n)),
{
    let t = now();
    let r = make_uuid7(t.second, t.nanosecond);
    proof {
        assert(spec_uuid7_time_prefix(r@, spec_uuid7_millis(t.second as int, t.nanosecond as int)));
    }
    r
}

/// Strict lexicographic order on character sequences, by code point.
pub open spec fn lex_lt(a: Seq<char>, b: Seq<char>) -> bool {
    (exists|i: int|
        0 <= i < a.len() && i < b.len() && (forall|k: int| 0 <= k < i ==> a[k] == b[k]) && (
        a[i] as u32) < (b[i] as u32)) || (a.len() < b.len() && a == b.take(a.len() as int))
}

proof fn lemma_hex_len(n: nat, w: nat)
    ensures
        spec_hex(n, w).len() == w,
    decreases w,
{
    if w > 0 {
        lemma_hex_len(n / 16, (w - 1) as nat);
    }
}

proof fn lemma_hex_lt(n1: nat, n2: nat, w: nat)
    requires
        n1 < n2,
        n2 < pow16(w),
    ensures
        lex_lt(spec_hex(n1, w), spec_hex(n2, w)),
    decreases w,
{
    lemma_hex_len(n1, w);
    lemma_hex_len(n2, w);
    if w == 0 {
        assert(false);
    } else {
        let q1 = n1 / 16;
        let q2 = n2 / 16;
        let a = spec_hex(n1, w);
        let b = spec_hex(n2, w);
        lemma_hex_len(q1, (w - 1) as nat);
        lemma_hex_len(q2, (w - 1) as nat);
        assert(q1 <= q2 && q2 < pow16((w - 1) as nat) && (q1 == q2 ==> n1 % 16 < n2 % 16)) by (
        nonlinear_arith)
            requires
                n1 < n2,
                n2 < 16 * pow16((w - 1) as nat),
                q1 == n1 / 16,
                q2 == n2 / 16,
        ;
        if q1 == q2 {
            let i = w - 1;
            assert(forall|k: int| 0 <= k < i ==> a[k] == b[k]);
            assert(a[i] == hex_digit((n1 % 16) as int));
            assert(b[i] == hex_digit((n2 % 16) as int));
            assert((a[i] as u32) < (b[i] as u32));
            assert(lex_lt(a, b));
        } else {
            lemma_hex_lt(q1, q2, (w - 1) as nat);
            let pa = spec_hex(q1, (w - 1) as nat);
            let pb = spec_hex(q2, (w - 1) as nat);
            let i = choose|i: int|
                0 <= i < pa.len() && i < pb.len() && (forall|k: int| 0 <= k < i ==> pa[k] == pb[k])
                    && (pa[i] as u32) < (pb[i] as u32);
            assert(a[i] == pa[i]);
            assert(b[i] == pb[i]);
            assert(forall|k: int| 0 <= k < i ==> a[k] == b[k]);
            assert(lex_lt(a, b));
        }
    }
}

/// Two version-7 identifiers whose clock readings fall in distinct whole
/// milliseconds sort lexicographically in the order of their times: the
/// identifier generated later is the lexicographically larger text.
pub proof fn lemma_uuid7_time_order(a: Seq<char>, b: Seq<char>, ms1: nat, ms2: nat)
    requires
        spec_uuid_shape(a, '7'),
        spec_uuid7_time_prefix(a, ms1),
        spec_uuid_shape(b, '7'),
        spec_uuid7_time_prefix(b, ms2),
        ms1 < ms2,
        ms2 < 0x1000000000000,
    ensures
        lex_lt(a, b),
{
    assert(pow16(12) == 0x1000000000000) by {
        reveal_with_fuel(pow16, 13);
    }
    let ha = spec_hex(ms1, 12);
    let hb = spec_hex(ms2, 12);
    lemma_hex_len(ms1, 12);
    lemma_hex_len(ms2, 12);
    lemma_hex_lt(ms1, ms2, 12);
    let j = choose|j: int|
        0 <= j < ha.len() && j < hb.len() && (forall|k: int| 0 <= k < j ==> ha[k] == hb[k]) && (
        ha[j] as u32) < (hb[j] as u32);
    assert forall|k: int| 0 <= k < 8 implies a[k] == ha[k] && b[k] == hb[k] by {
        assert(a.subrange(0, 8)[k] == a[k]);
        assert(b.subrange(0, 8)[k] == b[k]);
        assert(spec_hex(ms1, 12).subrange(0, 8)[k] == ha[k]);
        assert(spec_hex(ms2, 12).subrange(0, 8)[k] == hb[k]);
    }
    assert forall|k: int| 8 <= k < 12 implies a[k + 1] == ha[k] && b[k + 1] == hb[k] by {
        assert(a.subrange(9, 13)[k - 8] == a[k + 1]);
        assert(b.subrange(9, 13)[k - 8] == b[k + 1]);
        assert(spec_hex(ms1, 12).subrange(8, 12)[k - 8] == ha[k]);
        assert(spec_hex(ms2, 12).subrange(8, 12)[k - 8] == hb[k]);
    }
    if j < 8 {
        assert(forall|k: int| 0 <= k < j ==> a[k] == b[k]);
        assert((a[j] as u32) < (b[j] as u32));
        assert(lex_lt(a, b));
    } else {
        let i = j + 1;
        assert forall|k: int| 0 <= k < i implies a[k] == b[k] by {
            if k < 8 {
                assert(a[k] == ha[k] && b[k] == hb[k] && ha[k] == hb[k]);
            } else if k == 8 {
                assert(a[k] == '-' && b[k] == '-');
            } else {
                assert(a[k] == ha[k - 1] && b[k] == hb[k - 1] && ha[k - 1] == hb[k - 1]);
            }
        }
        assert((a[i] as u32) < (b[i] as u32));
        assert(lex_lt(a, b));
    }
}

} // verus!
