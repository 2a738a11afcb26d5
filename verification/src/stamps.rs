use vstd::prelude::*;
use vstd::string::StringExecFns;
use chrono::DateTime;

use crate::clock::{clock_now, since_epoch, subsec_nanos, whole_seconds, BeforeEpoch, Elapsed};

verus! {

/// A lowercase hexadecimal digit.
pub open spec fn is_lower_hex(c: char) -> bool {
    ('0' <= c && c <= '9') || ('a' <= c && c <= 'f')
}

/// The hyphenated lowercase text of a random (version 4, RFC 4122 variant)
/// UUID: `xxxxxxxx-xxxx-4xxx-yxxx-xxxxxxxxxxxx` with `y` one of `8`, `9`, `a`, `b`.
pub open spec fn is_uuid_v4_text(s: Seq<char>) -> bool {
    &&& s.len() == 36
    &&& forall|i: int|
        0 <= i < 36 ==> (if i == 8 || i == 13 || i == 18 || i == 23 {
            #[trigger] s[i] == '-'
        } else {
            is_lower_hex(s[i])
        })
    &&& s[14] == '4'
    &&& (s[19] == '8' || s[19] == '9' || s[19] == 'a' || s[19] == 'b')
}

/// Every character of `s` is a decimal digit.
pub open spec fn all_digits(s: Seq<char>) -> bool {
    forall|i: int| 0 <= i < s.len() ==> '0' <= #[trigger] s[i] && s[i] <= '9'
}

/// A year as RFC 3339 writes it: four digits, or (outside 0000..=9999) a sign
/// and at least four digits.
pub open spec fn is_year_text(y: Seq<char>) -> bool {
    (y.len() == 4 && all_digits(y)) || (y.len() >= 5 && (y[0] == '+' || y[0] == '-')
        && all_digits(y.skip(1)))
}

/// `-MM-DDTHH:MM:SS`: the part of the timestamp between the year and the fraction.
pub open spec fn is_date_clock_text(c: Seq<char>) -> bool {
    &&& c.len() == 15
    &&& c[0] == '-' && c[3] == '-' && c[6] == 'T' && c[9] == ':' && c[12] == ':'
    &&& all_digits(c.subrange(1, 3)) && all_digits(c.subrange(4, 6))
    &&& all_digits(c.subrange(7, 9)) && all_digits(c.subrange(10, 12))
    &&& all_digits(c.subrange(13, 15))
}

/// Fractional seconds: none, or a dot and three, six or nine digits.
pub open spec fn is_fraction_text(f: Seq<char>) -> bool {
    f.len() == 0 || ((f.len() == 4 || f.len() == 7 || f.len() == 10) && f[0] == '.' && all_digits(
        f.skip(1),
    ))
}

/// The offset that an RFC 3339 timestamp in UTC ends with.
pub open spec fn utc_offset_suffix() -> Seq<char> {
    "+00:00"@
}

/// An RFC 3339 date-time in UTC as `DateTime::to_rfc3339` writes it:
/// year, `-MM-DDTHH:MM:SS`, optional fraction, `+00:00`.
pub open spec fn is_utc_rfc3339(s: Seq<char>) -> bool {
    exists|k: int, f: int|
        #![trigger s.subrange(0, k), s.subrange(k + 15, k + 15 + f)]
        0 <= k && 0 <= f && k + 15 + f + 6 == s.len() && is_year_text(s.subrange(0, k))
            && is_date_clock_text(s.subrange(k, k + 15)) && is_fraction_text(
            s.subrange(k + 15, k + 15 + f),
        ) && s.subrange(k + 15 + f, s.len() as int) == utc_offset_suffix()
}

/// Calls `uuid::Uuid::new_v4` and formats it with `Display`. The value is
/// random; the claim is only its shape, which `Uuid::new_v4` (version and
/// variant bits forced) and the hyphenated lowercase formatter fix.
#[verifier::external_body]
pub(crate) fn new_request_id() -> (id: String)
    ensures
        is_uuid_v4_text(id@),
{
    uuid::Uuid::new_v4().to_string()
}

/// The lowercase hexadecimal digit for `n` (meant for `n < 16`).
pub open spec fn hex_char(n: u64) -> char {
    if n == 0 { '0' } else if n == 1 { '1' } else if n == 2 { '2' } else if n == 3 { '3' }
    else if n == 4 { '4' } else if n == 5 { '5' } else if n == 6 { '6' } else if n == 7 { '7' }
    else if n == 8 { '8' } else if n == 9 { '9' } else if n == 10 { 'a' } else if n == 11 { 'b' }
    else if n == 12 { 'c' } else if n == 13 { 'd' } else if n == 14 { 'e' } else { 'f' }
}

/// The `d`-th hexadecimal digit (from the least significant) of `k`.
pub open spec fn nibble(k: u64, d: int) -> u64 {
    (k >> ((4 * d) as u64)) & 15u64
}

/// The character at position `i` of the `k`-th spare request id: a version-4
/// UUID text of zeros whose sixteen free digits spell `k` in hexadecimal
/// (`00000000-0000-400x-8xxx-xxxxxxxxxxxx`).
pub open spec fn spare_id_char(k: u64, i: int) -> char {
    if i == 8 || i == 13 || i == 18 || i == 23 {
        '-'
    } else if i == 14 {
        '4'
    } else if i == 19 {
        '8'
    } else if i == 17 {
        hex_char(nibble(k, 15))
    } else if 20 <= i <= 22 {
        hex_char(nibble(k, 34 - i))
    } else if 24 <= i <= 35 {
        hex_char(nibble(k, 35 - i))
    } else {
        '0'
    }
}

/// The `k`-th spare request id, used when a random id is already taken.
pub open spec fn spare_id(k: u64) -> Seq<char> {
    Seq::new(36, |i: int| spare_id_char(k, i))
}

/// Sixteen equal hexadecimal digits make equal numbers.
proof fn lemma_nibbles_determine(a: u64, b: u64)
    by (bit_vector)
    requires
        (a >> 0u64) & 15u64 == (b >> 0u64) & 15u64,
        (a >> 4u64) & 15u64 == (b >> 4u64) & 15u64,
        (a >> 8u64) & 15u64 == (b >> 8u64) & 15u64,
        (a >> 12u64) & 15u64 == (b >> 12u64) & 15u64,
        (a >> 16u64) & 15u64 == (b >> 16u64) & 15u64,
        (a >> 20u64) & 15u64 == (b >> 20u64) & 15u64,
        (a >> 24u64) & 15u64 == (b >> 24u64) & 15u64,
        (a >> 28u64) & 15u64 == (b >> 28u64) & 15u64,
        (a >> 32u64) & 15u64 == (b >> 32u64) & 15u64,
        (a >> 36u64) & 15u64 == (b >> 36u64) & 15u64,
        (a >> 40u64) & 15u64 == (b >> 40u64) & 15u64,
        (a >> 44u64) & 15u64 == (b >> 44u64) & 15u64,
        (a >> 48u64) & 15u64 == (b >> 48u64) & 15u64,
        (a >> 52u64) & 15u64 == (b >> 52u64) & 15u64,
        (a >> 56u64) & 15u64 == (b >> 56u64) & 15u64,
        (a >> 60u64) & 15u64 == (b >> 60u64) & 15u64,
    ensures
        a == b,
{
}

/// A digit of a number is below sixteen.
proof fn lemma_nibble_small(k: u64, d: int)
    ensures
        nibble(k, d) < 16,
{
    let s: u64 = (4 * d) as u64;
    assert((k >> s) & 15u64 < 16u64) by (bit_vector);
}

/// Different hexadecimal digits are different characters.
proof fn lemma_hex_char_injective(n: u64, m: u64)
    requires
        n < 16,
        m < 16,
        hex_char(n) == hex_char(m),
    ensures
        n == m,
{
}

/// Every spare id has the shape of a random UUID's text.
pub proof fn lemma_spare_id_shape(k: u64)
    ensures
        is_uuid_v4_text(spare_id(k)),
{
    assert forall|i: int| 0 <= i < 36 implies (if i == 8 || i == 13 || i == 18 || i == 23 {
        #[trigger] spare_id(k)[i] == '-'
    } else {
        is_lower_hex(spare_id(k)[i])
    }) by {
        lemma_nibble_small(k, 15);
        lemma_nibble_small(k, 34 - i);
        lemma_nibble_small(k, 35 - i);
    }
}

/// Different numbers give different spare ids.
pub proof fn lemma_spare_id_injective(a: u64, b: u64)
    requires
        spare_id(a) == spare_id(b),
    ensures
        a == b,
{
    assert forall|d: int| 0 <= d < 16 implies #[trigger] nibble(a, d) == nibble(b, d) by {
        let i: int = if d == 15 { 17 } else if d >= 12 { 34 - d } else { 35 - d };
        assert(spare_id(a)[i] == spare_id(b)[i]);
        assert(spare_id(a)[i] == spare_id_char(a, i));
        assert(spare_id(b)[i] == spare_id_char(b, i));
        if d == 15 {
            assert(spare_id_char(a, i) == hex_char(nibble(a, d)));
            assert(spare_id_char(b, i) == hex_char(nibble(b, d)));
        } else if d >= 12 {
            assert(34 - i == d);
            assert(spare_id_char(a, i) == hex_char(nibble(a, d)));
            assert(spare_id_char(b, i) == hex_char(nibble(b, d)));
        } else {
            assert(35 - i == d);
            assert(spare_id_char(a, i) == hex_char(nibble(a, d)));
            assert(spare_id_char(b, i) == hex_char(nibble(b, d)));
        }
        lemma_nibble_small(a, d);
        lemma_nibble_small(b, d);
        lemma_hex_char_injective(nibble(a, d), nibble(b, d));
    }
    assert(nibble(a, 0) == nibble(b, 0));
    assert(nibble(a, 1) == nibble(b, 1));
    assert(nibble(a, 2) == nibble(b, 2));
    assert(nibble(a, 3) == nibble(b, 3));
    assert(nibble(a, 4) == nibble(b, 4));
    assert(nibble(a, 5) == nibble(b, 5));
    assert(nibble(a, 6) == nibble(b, 6));
    assert(nibble(a, 7) == nibble(b, 7));
    assert(nibble(a, 8) == nibble(b, 8));
    assert(nibble(a, 9) == nibble(b, 9));
    assert(nibble(a, 10) == nibble(b, 10));
    assert(nibble(a, 11) == nibble(b, 11));
    assert(nibble(a, 12) == nibble(b, 12));
    assert(nibble(a, 13) == nibble(b, 13));
    assert(nibble(a, 14) == nibble(b, 14));
    assert(nibble(a, 15) == nibble(b, 15));
    lemma_nibbles_determine(a, b);
}

/// The text of the hexadecimal digit `n`.
fn hex_text(n: u64) -> (r: &'static str)
    requires
        n < 16,
    ensures
        r@ == seq![hex_char(n)],
{
    proof {
        reveal_strlit("0");
        reveal_strlit("1");
        reveal_strlit("2");
        reveal_strlit("3");
        reveal_strlit("4");
        reveal_strlit("5");
        reveal_strlit("6");
        reveal_strlit("7");
        reveal_strlit("8");
        reveal_strlit("9");
        reveal_strlit("a");
        reveal_strlit("b");
        reveal_strlit("c");
        reveal_strlit("d");
        reveal_strlit("e");
        reveal_strlit("f");
    }
    if n == 0 { "0" } else if n == 1 { "1" } else if n == 2 { "2" } else if n == 3 { "3" }
    else if n == 4 { "4" } else if n == 5 { "5" } else if n == 6 { "6" } else if n == 7 { "7" }
    else if n == 8 { "8" } else if n == 9 { "9" } else if n == 10 { "a" } else if n == 11 { "b" }
    else if n == 12 { "c" } else if n == 13 { "d" } else if n == 14 { "e" } else { "f" }
}

/// The text of position `i` of the `k`-th spare id.
fn spare_id_piece(k: u64, i: usize) -> (r: &'static str)
    requires
        i < 36,
    ensures
        r@ == seq![spare_id_char(k, i as int)],
{
    proof {
        reveal_strlit("-");
        reveal_strlit("4");
        reveal_strlit("8");
        reveal_strlit("0");
    }
    if i == 8 || i == 13 || i == 18 || i == 23 {
        "-"
    } else if i == 14 {
        "4"
    } else if i == 19 {
        "8"
    } else if i == 17 || (20 <= i && i <= 22) || 24 <= i {
        let d: u64 = if i == 17 { 15 } else if i <= 22 { (34 - i) as u64 } else { (35 - i) as u64 };
        let shift: u64 = 4 * d;
        let n: u64 = (k >> shift) & 15u64;
        proof {
            lemma_nibble_small(k, d as int);
        }
        assert(n == nibble(k, d as int));
        hex_text(n)
    } else {
        "0"
    }
}

/// The text of the `k`-th spare id.
pub fn spare_id_text(k: u64) -> (r: String)
    ensures
        r@ == spare_id(k),
{
    let mut out = String::new();
    let mut i: usize = 0;
    while i < 36
        invariant
            i <= 36,
            out@ =~= spare_id(k).take(i as int),
        decreases 36 - i,
    {
        let piece = spare_id_piece(k, i);
        out.append(piece);
        i = i + 1;
        assert(out@ =~= spare_id(k).take(i as int));
    }
    assert(spare_id(k).take(36) =~= spare_id(k));
    out
}

/// The RFC 3339 text that chrono gives for the UTC instant `secs` seconds and
/// `nanos` nanoseconds after the Unix epoch, or `None` where chrono has no
/// such instant.
pub uninterp spec fn utc_rfc3339_text(secs: i64, nanos: u32) -> Option<Seq<char>>;

/// Calls `chrono::DateTime::from_timestamp` and formats the instant with
/// `DateTime::to_rfc3339`. `from_timestamp` gives `None` for seconds out of
/// chrono's range or an invalid nanosecond count, and is defined for every
/// instant from the epoch up to the end of year 9999 with fewer than a billion
/// nanoseconds. Whatever it gives has the shape that `write_rfc3339` fixes
/// (four-digit or signed year, two-digit fields, a fraction of 0, 3, 6 or 9
/// digits, and `+00:00` for the zero offset). The text itself is named, not
/// spelled out.
#[verifier::external_body]
fn utc_rfc3339(secs: i64, nanos: u32) -> (r: Option<String>)
    ensures
        r.deep_view() == utc_rfc3339_text(secs, nanos),
        r matches Some(s) ==> is_utc_rfc3339(s@),
        0 <= secs <= 253_402_300_799 && nanos < 1_000_000_000 ==> r is Some,
{
    DateTime::from_timestamp(secs, nanos).map(|t| t.to_rfc3339())
}

/// The timestamp text for a clock reading of `secs` seconds and `nanos`
/// nanoseconds after the epoch: chrono's RFC 3339 text for that instant, or
/// `None` when the reading is beyond what chrono can represent.
pub open spec fn stamp_text(secs: u64, nanos: u32) -> Option<Seq<char>> {
    if secs > i64::MAX {
        None
    } else {
        utc_rfc3339_text(secs as i64, nanos)
    }
}

/// The timestamp text for a clock reading of `secs` seconds and `nanos`
/// nanoseconds after the epoch: chrono's RFC 3339 text, or `None` when the
/// reading is beyond what chrono can represent.
pub fn stamp_at(secs: u64, nanos: u32) -> (r: Option<String>)
    ensures
        r.deep_view() == stamp_text(secs, nanos),
        secs > i64::MAX ==> r is None,
        secs <= i64::MAX ==> r.deep_view() == utc_rfc3339_text(secs as i64, nanos),
        r matches Some(s) ==> is_utc_rfc3339(s@),
        secs <= 253_402_300_799 && nanos < 1_000_000_000 ==> r is Some,
{
    if secs > 9_223_372_036_854_775_807u64 {
        None
    } else {
        utc_rfc3339(secs as i64, nanos)
    }
}

/// Why the current time could not be stamped.
pub enum StampFault {
    /// The system clock reads earlier than the Unix epoch.
    BeforeEpoch(BeforeEpoch),
    /// The clock reading is beyond what chrono can represent.
    OutOfRange(Elapsed),
}

/// The current UTC time as RFC 3339 text, with the clock reading it was made
/// from: the text is exactly chrono's text for that reading. Fails when the
/// system clock reads earlier than the Unix epoch, or when the reading is
/// beyond chrono's range.
pub fn now_stamp() -> (r: Result<(String, Elapsed), StampFault>)
    ensures
        r matches Ok(p) ==> Some(p.0@) == stamp_text(p.1.secs(), p.1.nanos()) && is_utc_rfc3339(
            p.0@,
        ),
        r matches Err(StampFault::OutOfRange(e)) ==> stamp_text(e.secs(), e.nanos()) is None,
{
    let reading = clock_now();
    match since_epoch(&reading) {
        Ok(elapsed) => {
            let secs = whole_seconds(&elapsed);
            let nanos = subsec_nanos(&elapsed);
            match stamp_at(secs, nanos) {
                Some(text) => Ok((text, elapsed)),
                None => Err(StampFault::OutOfRange(elapsed)),
            }
        },
        Err(before) => Err(StampFault::BeforeEpoch(before)),
    }
}

} // verus!
