//! Timestamp normalization for the wire codec.
//!
//! An incoming timestamp is ISO-8601 text. Normalization first tries a strict
//! RFC-3339 parse (through `chrono`), and on failure falls back to the fixed
//! pattern `YYYY-MM-DDTHH:MM:SS(.f{1,9})Z`, which this module parses itself,
//! fully verified. A successful parse yields whole seconds since the Unix
//! epoch and the sub-second remainder in nanoseconds.

use vstd::prelude::*;
use vstd::string::StringSliceAdditionalSpecFns;
use vstd::utf8::encode_utf8;
use vstd::arithmetic::div_mod::lemma_fundamental_div_mod;
use vstd::arithmetic::mul::lemma_mul_inequality;

verus! {

/// A normalized instant: whole seconds since the Unix epoch and the
/// sub-second remainder, always in `[0, 1_000_000_000)` nanoseconds.
#[derive(Clone, Copy, PartialEq, Eq, Structural, Debug)]
pub struct Timestamp {
    pub seconds: i64,
    pub nanos: i32,
}

/// Why a timestamp failed to normalize.
#[derive(Clone, Copy, PartialEq, Eq, Structural, Debug)]
pub enum TimestampError {
    /// Neither the RFC-3339 parse nor the fallback pattern accepted the text.
    Unparseable,
    /// The RFC-3339 parse accepted the text but its sub-second part does not
    /// fit below one second (a leap-second reading).
    SubsecondOverflow,
}

/// Seconds from 0000-01-01T00:00:00Z to the Unix epoch.
pub const EPOCH_OFFSET_SECONDS: i64 = 62167219200;

pub open spec fn is_digit(b: u8) -> bool {
    48 <= b && b <= 57
}

pub open spec fn dval(b: u8) -> int {
    b - 48
}

pub open spec fn all_digits(s: Seq<u8>) -> bool {
    forall|i: int| 0 <= i < s.len() ==> is_digit(#[trigger] s[i])
}

/// The value of a digit string read in base ten.
pub open spec fn digits_val(s: Seq<u8>) -> int
    decreases s.len(),
{
    if s.len() == 0 {
        0
    } else {
        digits_val(s.drop_last()) * 10 + dval(s.last())
    }
}

pub open spec fn pow10(n: nat) -> int
    decreases n,
{
    if n == 0 {
        1
    } else {
        10 * pow10((n - 1) as nat)
    }
}

pub open spec fn is_leap_year(y: int) -> bool {
    y % 4 == 0 && (y % 100 != 0 || y % 400 == 0)
}

pub open spec fn days_in_year(y: int) -> int {
    if is_leap_year(y) {
        366
    } else {
        365
    }
}

/// Days in the proleptic Gregorian calendar from 0000-01-01 to the first day
/// of year `y`.
pub open spec fn days_before_year(y: int) -> int
    decreases y,
{
    if y <= 0 {
        0
    } else {
        days_before_year(y - 1) + days_in_year(y - 1)
    }
}

pub open spec fn days_in_month(y: int, m: int) -> int {
    if m == 2 {
        if is_leap_year(y) {
            29
        } else {
            28
        }
    } else if m == 4 || m == 6 || m == 9 || m == 11 {
        30
    } else {
        31
    }
}

/// Days from the first day of year `y` to the first day of its month `m`.
pub open spec fn days_before_month(y: int, m: int) -> int
    decreases m,
{
    if m <= 1 {
        0
    } else {
        days_before_month(y, m - 1) + days_in_month(y, m - 1)
    }
}

/// Days from 0000-01-01 to the given calendar date.
pub open spec fn civil_days(y: int, m: int, d: int) -> int {
    days_before_year(y) + days_before_month(y, m) + (d - 1)
}

pub open spec fn valid_date(y: int, m: int, d: int) -> bool {
    0 <= y <= 9999 && 1 <= m <= 12 && 1 <= d <= days_in_month(y, m)
}

/// Does the byte string match the fallback pattern
/// `YYYY-MM-DDTHH:MM:SS(.f{1,9})Z` with in-range fields and a valid date?
pub open spec fn fallback_matches(s: Seq<u8>) -> bool {
    &&& s.len() >= 20
    &&& all_digits(s.subrange(0, 4))
    &&& s[4] == 45
    &&& all_digits(s.subrange(5, 7))
    &&& s[7] == 45
    &&& all_digits(s.subrange(8, 10))
    &&& s[10] == 84
    &&& all_digits(s.subrange(11, 13))
    &&& s[13] == 58
    &&& all_digits(s.subrange(14, 16))
    &&& s[16] == 58
    &&& all_digits(s.subrange(17, 19))
    &&& (s.len() == 20 ==> s[19] == 90)
    &&& (s.len() != 20 ==> {
        &&& 22 <= s.len() <= 30
        &&& s[19] == 46
        &&& s[s.len() - 1] == 90
        &&& all_digits(s.subrange(20, s.len() - 1))
    })
    &&& valid_date(
        digits_val(s.subrange(0, 4)),
        digits_val(s.subrange(5, 7)),
        digits_val(s.subrange(8, 10)),
    )
    &&& digits_val(s.subrange(11, 13)) <= 23
    &&& digits_val(s.subrange(14, 16)) <= 59
    &&& digits_val(s.subrange(17, 19)) <= 59
}

/// Epoch seconds denoted by a fallback-pattern match.
pub open spec fn fallback_seconds(s: Seq<u8>) -> int {
    civil_days(
        digits_val(s.subrange(0, 4)),
        digits_val(s.subrange(5, 7)),
        digits_val(s.subrange(8, 10)),
    ) * 86400 + digits_val(s.subrange(11, 13)) * 3600 + digits_val(s.subrange(14, 16)) * 60
        + digits_val(s.subrange(17, 19)) - EPOCH_OFFSET_SECONDS
}

/// Nanoseconds denoted by a fallback-pattern match: the fractional digits
/// scaled out to nine places.
pub open spec fn fallback_nanos(s: Seq<u8>) -> int {
    if s.len() == 20 {
        0
    } else {
        digits_val(s.subrange(20, s.len() - 1)) * pow10((9 - (s.len() - 21)) as nat)
    }
}

/// What the fallback pattern makes of a byte string: `None` when the pattern
/// does not match, otherwise the epoch pair.
pub open spec fn fallback_norm(s: Seq<u8>) -> Option<(int, int)> {
    if fallback_matches(s) {
        Some((fallback_seconds(s), fallback_nanos(s)))
    } else {
        None
    }
}

/// Named result of chrono's strict RFC-3339 parse on the UTF-8 bytes of a
/// timestamp string: `None` when the parse fails, otherwise epoch seconds and
/// sub-second nanoseconds.
pub uninterp spec fn rfc3339_norm(s: Seq<u8>) -> Option<(int, int)>;

/// Relies on chrono::DateTime::parse_from_rfc3339 together with
/// DateTime::timestamp and DateTime::timestamp_subsec_nanos. Whether the text
/// parses, and the epoch pair it denotes, depend on its bytes alone. Text
/// matching the fallback pattern is a strict subset of RFC 3339 (separator
/// 'T', suffix 'Z', seconds 00-59, at most nine fractional digits), is
/// accepted, and denotes the standard proleptic-Gregorian epoch pair. The
/// nanosecond part exceeds 999_999_999 only on a leap-second reading and
/// always stays below 2_000_000_000.
#[verifier::external_body]
fn rfc3339_to_epoch(s: &str) -> (r: Option<(i64, u32)>)
    ensures
        r is None ==> rfc3339_norm(s.spec_bytes()) is None && fallback_norm(s.spec_bytes())
            is None,
        r matches Some(q) ==> rfc3339_norm(s.spec_bytes()) == Some((q.0 as int, q.1 as int))
            && q.1 < 2_000_000_000,
        r matches Some(q) ==> (fallback_norm(s.spec_bytes()) is Some ==> fallback_norm(
            s.spec_bytes(),
        ) == Some((q.0 as int, q.1 as int))),
{
    match chrono::DateTime::parse_from_rfc3339(s) {
        Ok(dt) => Some((dt.timestamp(), dt.timestamp_subsec_nanos())),
        Err(_) => None,
    }
}

/// The concrete values of `pow10` the parsers need, by unfolding.
proof fn lemma_pow10_nine()
    ensures
        pow10(9nat) == 1_000_000_000,
        pow10(4nat) == 10000,
{
    reveal_with_fuel(pow10, 10);
}

/// A power of ten is at least one.
proof fn lemma_pow10_pos(n: nat)
    ensures
        pow10(n) >= 1,
    decreases n,
{
    if n > 0 {
        lemma_pow10_pos((n - 1) as nat);
    }
}

/// A string of `w` digits is worth less than `pow10(w)`.
pub proof fn lemma_digits_val_bound(s: Seq<u8>)
    requires
        all_digits(s),
    ensures
        0 <= digits_val(s) < pow10(s.len()),
    decreases s.len(),
{
    if s.len() > 0 {
        assert(all_digits(s.drop_last())) by {
            assert(forall|i: int| 0 <= i < s.len() - 1 ==> s.drop_last()[i] == s[i]);
        }
        lemma_digits_val_bound(s.drop_last());
        lemma_pow10_pos((s.len() - 1) as nat);
    }
}

/// Reads `count` base-ten digits of `b` starting at `start`; `None` when a
/// byte there is not a digit.
fn read_digits(b: &[u8], start: usize, count: usize) -> (r: Option<u64>)
    requires
        start + count <= b@.len(),
        count <= 9,
    ensures
        r is Some <==> all_digits(b@.subrange(start as int, start + count)),
        r matches Some(v) ==> v == digits_val(b@.subrange(start as int, start + count)) && v
            < pow10(count as nat),
{
    let ghost whole = b@.subrange(start as int, start + count);
    let blen: usize = b.len();
    let mut acc: u64 = 0;
    let mut i: usize = 0;
    while i < count
        invariant
            0 <= i <= count,
            count <= 9,
            start + count <= b@.len(),
            b@.len() == blen,
            whole == b@.subrange(start as int, start + count),
            all_digits(b@.subrange(start as int, start + i)),
            acc == digits_val(b@.subrange(start as int, start + i)),
            acc < pow10(i as nat),
        decreases count - i,
    {
        proof {
            lemma_pow10_mono(i as nat, 9nat);
            lemma_pow10_nine();
        }
        let byte = b[start + i];
        if byte < 48 || byte > 57 {
            assert(!all_digits(whole)) by {
                assert(whole[i as int] == byte);
            }
            return None;
        }
        proof {
            let prev = b@.subrange(start as int, start + i);
            let next = b@.subrange(start as int, start + i + 1);
            assert(next.drop_last() =~= prev);
            assert(next.last() == byte);
            lemma_pow10_pos(i as nat);
            assert(acc * 10 + 9 < pow10(i as nat) * 10) by {
                lemma_mul_inequality(acc + 1, pow10(i as nat), 10);
            }
        }
        acc = acc * 10 + (byte - 48) as u64;
        i = i + 1;
    }
    assert(b@.subrange(start as int, start + i) =~= whole);
    Some(acc)
}

/// Ten to the `k`, executably.
fn pow10_u64(k: usize) -> (r: u64)
    requires
        k <= 9,
    ensures
        r == pow10(k as nat),
{
    let mut r: u64 = 1;
    let mut i: usize = 0;
    while i < k
        invariant
            0 <= i <= k <= 9,
            r == pow10(i as nat),
            r <= 1_000_000_000,
        decreases k - i,
    {
        proof {
            lemma_pow10_pos(i as nat);
            assert(pow10((i + 1) as nat) == 10 * pow10(i as nat));
            lemma_pow10_nine();
            assert(pow10((i + 1) as nat) <= pow10(9nat)) by {
                lemma_pow10_mono((i + 1) as nat, 9nat);
            }
        }
        r = r * 10;
        i = i + 1;
    }
    r
}

/// `pow10` is monotone in its exponent.
proof fn lemma_pow10_mono(a: nat, b: nat)
    requires
        a <= b,
    ensures
        pow10(a) <= pow10(b),
    decreases b,
{
    if a < b {
        lemma_pow10_mono(a, (b - 1) as nat);
        lemma_pow10_pos((b - 1) as nat);
    }
}

/// `pow10` turns addition of exponents into multiplication.
proof fn lemma_pow10_add(a: nat, b: nat)
    ensures
        pow10(a + b) == pow10(a) * pow10(b),
    decreases a,
{
    if a == 0 {
    } else {
        lemma_pow10_add((a - 1) as nat, b);
        assert(pow10(a + b) == 10 * pow10((a - 1) as nat + b));
        assert(10 * (pow10((a - 1) as nat) * pow10(b)) == (10 * pow10((a - 1) as nat)) * pow10(
            b,
        )) by (nonlinear_arith);
    }
}

/// A fractional value of `k` digits scaled out to nine places stays below
/// one second of nanoseconds.
proof fn lemma_scaled_frac_bound(v: int, k: nat)
    requires
        0 <= v < pow10(k),
        k <= 9,
    ensures
        0 <= v * pow10((9 - k) as nat) < 1_000_000_000,
{
    let s = pow10((9 - k) as nat);
    lemma_pow10_pos((9 - k) as nat);
    lemma_pow10_add(k, (9 - k) as nat);
    lemma_pow10_nine();
    assert(v * s >= 0) by (nonlinear_arith)
        requires
            v >= 0,
            s >= 1,
    ;
    assert(v * s <= (pow10(k) - 1) * s) by {
        lemma_mul_inequality(v, pow10(k) - 1, s);
    }
    assert((pow10(k) - 1) * s == pow10(k) * s - s) by (nonlinear_arith);
}

/// A fallback-pattern nanosecond value always lies below one second.
pub proof fn lemma_fallback_nanos_range(s: Seq<u8>)
    requires
        fallback_matches(s),
    ensures
        0 <= fallback_nanos(s) < 1_000_000_000,
{
    if s.len() != 20 {
        let frac = s.subrange(20, s.len() - 1);
        lemma_digits_val_bound(frac);
        lemma_scaled_frac_bound(digits_val(frac), frac.len());
    }
}

/// `days_in_year`, executably.
fn days_in_year_u64(y: u64) -> (r: u64)
    ensures
        r == days_in_year(y as int),
{
    if y % 4 == 0 && (y % 100 != 0 || y % 400 == 0) {
        366
    } else {
        365
    }
}

/// `days_in_month`, executably.
fn days_in_month_u64(y: u64, m: u64) -> (r: u64)
    ensures
        r == days_in_month(y as int, m as int),
{
    if m == 2 {
        if y % 4 == 0 && (y % 100 != 0 || y % 400 == 0) {
            29
        } else {
            28
        }
    } else if m == 4 || m == 6 || m == 9 || m == 11 {
        30
    } else {
        31
    }
}

/// `days_before_year` stays under 366 days a year.
proof fn lemma_days_before_year_bound(y: int)
    requires
        y >= 0,
    ensures
        0 <= days_before_year(y) <= 366 * y,
    decreases y,
{
    if y > 0 {
        lemma_days_before_year_bound(y - 1);
    }
}

/// Days-from-year-zero of the first day of year `y`, executably.
fn days_before_year_u64(y: u64) -> (r: u64)
    requires
        y <= 10000,
    ensures
        r == days_before_year(y as int),
{
    let mut acc: u64 = 0;
    let mut i: u64 = 0;
    while i < y
        invariant
            0 <= i <= y <= 10000,
            acc == days_before_year(i as int),
            acc <= 366 * i,
        decreases y - i,
    {
        acc = acc + days_in_year_u64(i);
        i = i + 1;
    }
    acc
}

/// Days-from-new-year of the first day of month `m` in year `y`, executably.
fn days_before_month_u64(y: u64, m: u64) -> (r: u64)
    requires
        1 <= m <= 13,
    ensures
        r == days_before_month(y as int, m as int),
        r <= 372,
{
    let mut acc: u64 = 0;
    let mut i: u64 = 1;
    while i < m
        invariant
            1 <= i <= m <= 13,
            acc == days_before_month(y as int, i as int),
            acc <= 31 * (i - 1),
        decreases m - i,
    {
        acc = acc + days_in_month_u64(y, i);
        i = i + 1;
    }
    acc
}

/// Parses the fallback pattern; exactly the strings `fallback_norm` accepts,
/// with exactly its value.
fn parse_fallback(b: &[u8]) -> (r: Option<(i64, i32)>)
    ensures
        match fallback_norm(b@) {
            Some(p) => r matches Some(q) && q.0 == p.0 && q.1 == p.1,
            None => r is None,
        },
        r matches Some(q) ==> 0 <= q.1 < 1_000_000_000,
{
    let n = b.len();
    if n < 20 || n == 21 || n > 30 {
        return None;
    }
    if b[4] != 45 || b[7] != 45 || b[10] != 84 || b[13] != 58 || b[16] != 58 {
        return None;
    }
    if b[n - 1] != 90 {
        return None;
    }
    if n > 20 && b[19] != 46 {
        return None;
    }
    let year = match read_digits(b, 0, 4) {
        Some(v) => v,
        None => {
            return None;
        },
    };
    let month = match read_digits(b, 5, 2) {
        Some(v) => v,
        None => {
            return None;
        },
    };
    let day = match read_digits(b, 8, 2) {
        Some(v) => v,
        None => {
            return None;
        },
    };
    let hour = match read_digits(b, 11, 2) {
        Some(v) => v,
        None => {
            return None;
        },
    };
    let minute = match read_digits(b, 14, 2) {
        Some(v) => v,
        None => {
            return None;
        },
    };
    let second = match read_digits(b, 17, 2) {
        Some(v) => v,
        None => {
            return None;
        },
    };
    if month < 1 || month > 12 {
        return None;
    }
    if day < 1 || day > days_in_month_u64(year, month) {
        return None;
    }
    if hour > 23 || minute > 59 || second > 59 {
        return None;
    }
    proof {
        lemma_pow10_nine();
    }
    let nanos: u64 = if n > 20 {
        let frac_len = n - 21;
        let frac = match read_digits(b, 20, frac_len) {
            Some(v) => v,
            None => {
                return None;
            },
        };
        let scale = pow10_u64(9 - frac_len);
        proof {
            lemma_scaled_frac_bound(frac as int, frac_len as nat);
        }
        frac * scale
    } else {
        0
    };
    assert(fallback_matches(b@));
    proof {
        lemma_days_before_year_bound(year as int);
    }
    let days: u64 = days_before_year_u64(year) + days_before_month_u64(year, month) + (day - 1);
    let total: i64 = (days as i64) * 86400 + (hour as i64) * 3600 + (minute as i64) * 60 + (
    second as i64);
    let seconds: i64 = total - EPOCH_OFFSET_SECONDS;
    Some((seconds, nanos as i32))
}

/// The fixed-width base-ten rendering of `v`, `w` digits, most significant
/// first.
pub open spec fn digit_bytes(v: int, w: nat) -> Seq<u8>
    decreases w,
{
    if w == 0 {
        Seq::empty()
    } else {
        digit_bytes(v / 10, (w - 1) as nat).push((48 + v % 10) as u8)
    }
}

/// A fixed-width rendering is all digits, has its width as length, and reads
/// back as the value it rendered.
proof fn lemma_digit_bytes_props(v: int, w: nat)
    requires
        0 <= v < pow10(w),
    ensures
        digit_bytes(v, w).len() == w,
        all_digits(digit_bytes(v, w)),
        digits_val(digit_bytes(v, w)) == v,
    decreases w,
{
    if w == 0 {
    } else {
        lemma_fundamental_div_mod(v, 10);
        assert(0 <= v % 10 < 10 && 0 <= v / 10) by (nonlinear_arith)
            requires
                v >= 0,
        ;
        assert(v / 10 < pow10((w - 1) as nat));
        lemma_digit_bytes_props(v / 10, (w - 1) as nat);
        let db = digit_bytes(v, w);
        let prefix = digit_bytes(v / 10, (w - 1) as nat);
        assert(db.drop_last() =~= prefix);
        assert(db.last() == (48 + v % 10) as u8);
        assert(all_digits(db)) by {
            assert(forall|i: int| 0 <= i < w - 1 ==> db[i] == prefix[i]);
        }
    }
}

/// Appends the fixed-width base-ten rendering of `v` to `out`.
fn push_digits(out: &mut Vec<u8>, v: u64, w: usize)
    requires
        w <= 9,
        v < pow10(w as nat),
    ensures
        final (out)@ == old(out)@ + digit_bytes(v as int, w as nat),
    decreases w,
{
    if w == 0 {
        assert(final (out)@ =~= old(out)@ + digit_bytes(v as int, 0nat));
    } else {
        proof {
            lemma_fundamental_div_mod(v as int, 10);
            assert(0 <= (v as int) % 10 < 10 && 0 <= (v as int) / 10) by (nonlinear_arith)
                requires
                    v >= 0,
            ;
        }
        push_digits(out, v / 10, w - 1);
        out.push(48 + (v % 10) as u8);
        assert(final (out)@ =~= old(out)@ + digit_bytes(v as int, w as nat));
    }
}

/// The months of a year cover exactly its days.
proof fn lemma_months_cover_year(y: int)
    ensures
        days_before_month(y, 13) == days_in_year(y),
{
    reveal_with_fuel(days_before_month, 14);
}

/// The epoch pairs that the formatter can render: nanoseconds below one
/// second and seconds within the four-digit-year calendar.
pub open spec fn formatter_in_range(seconds: int, nanos: int) -> bool {
    &&& 0 <= nanos < 1_000_000_000
    &&& -EPOCH_OFFSET_SECONDS <= seconds
    &&& seconds + EPOCH_OFFSET_SECONDS < days_before_year(10000) * 86400
}

/// Renders a timestamp as fallback-pattern text, `YYYY-MM-DDTHH:MM:SS` plus
/// nine fractional digits and `Z`; `None` exactly when the pair lies outside
/// the four-digit-year calendar.
pub fn format_timestamp(t: &Timestamp) -> (r: Option<String>)
    ensures
        r is Some <==> formatter_in_range(t.seconds as int, t.nanos as int),
        r matches Some(s) ==> fallback_norm(encode_utf8(s@)) == Some(
            (t.seconds as int, t.nanos as int),
        ),
{
    if t.nanos < 0 || t.nanos >= 1_000_000_000 {
        return None;
    }
    if t.seconds < -EPOCH_OFFSET_SECONDS {
        return None;
    }
    let total_days: u64 = days_before_year_u64(10000);
    proof {
        lemma_days_before_year_bound(10000);
    }
    let limit: i64 = (total_days as i64) * 86400 - EPOCH_OFFSET_SECONDS;
    if t.seconds >= limit {
        return None;
    }
    let shifted: u64 = (t.seconds + EPOCH_OFFSET_SECONDS) as u64;
    let days: u64 = shifted / 86400;
    let sod: u64 = shifted % 86400;
    proof {
        lemma_fundamental_div_mod(shifted as int, 86400);
        assert(days < days_before_year(10000)) by (nonlinear_arith)
            requires
                days == shifted as int / 86400,
                shifted < days_before_year(10000) * 86400,
                shifted >= 0,
                days_before_year(10000) >= 0,
        ;
    }
    let mut year: u64 = 0;
    let mut rem: u64 = days;
    loop
        invariant
            year <= 10000,
            days_before_year(year as int) + rem == days,
            days < days_before_year(10000),
        ensures
            days_before_year(year as int) + rem == days,
            rem < days_in_year(year as int),
            year <= 9999,
        decreases rem,
    {
        let len = days_in_year_u64(year);
        if rem < len {
            assert(year != 10000);
            break ;
        }
        assert(year < 10000);
        rem = rem - len;
        year = year + 1;
    }
    let mut month: u64 = 1;
    let mut dom: u64 = rem;
    proof {
        lemma_months_cover_year(year as int);
    }
    loop
        invariant
            1 <= month <= 12,
            days_before_month(year as int, month as int) + dom == rem,
            rem < days_in_year(year as int),
            days_before_month(year as int, 13) == days_in_year(year as int),
        ensures
            days_before_month(year as int, month as int) + dom == rem,
            1 <= month <= 12,
            dom < days_in_month(year as int, month as int),
        decreases 12 - month,
    {
        let len = days_in_month_u64(year, month);
        if dom < len {
            break ;
        }
        assert(month < 12) by {
            reveal_with_fuel(days_before_month, 14);
        }
        dom = dom - len;
        month = month + 1;
    }
    let day: u64 = dom + 1;
    let hour: u64 = sod / 3600;
    let rem_t: u64 = sod % 3600;
    let minute: u64 = rem_t / 60;
    let second: u64 = rem_t % 60;
    proof {
        lemma_fundamental_div_mod(sod as int, 3600);
        lemma_fundamental_div_mod(rem_t as int, 60);
        assert(hour <= 23 && rem_t < 3600 && minute <= 59 && second <= 59 && hour * 3600 + minute
            * 60 + second == sod) by (nonlinear_arith)
            requires
                sod < 86400,
                hour == sod as int / 3600,
                rem_t == sod as int % 3600,
                minute == rem_t as int / 60,
                second == rem_t as int % 60,
        ;
        lemma_pow10_nine();
        assert(pow10(2nat) == 100 && pow10(1nat) == 10) by {
            reveal_with_fuel(pow10, 3);
        }
    }
    let mut out: Vec<u8> = Vec::new();
    push_digits(&mut out, year, 4);
    out.push(45);
    push_digits(&mut out, month, 2);
    out.push(45);
    push_digits(&mut out, day, 2);
    out.push(84);
    push_digits(&mut out, hour, 2);
    out.push(58);
    push_digits(&mut out, minute, 2);
    out.push(58);
    push_digits(&mut out, second, 2);
    out.push(46);
    push_digits(&mut out, t.nanos as u64, 9);
    out.push(90);
    proof {
        lemma_digit_bytes_props(year as int, 4nat);
        lemma_digit_bytes_props(month as int, 2nat);
        lemma_digit_bytes_props(day as int, 2nat);
        lemma_digit_bytes_props(hour as int, 2nat);
        lemma_digit_bytes_props(minute as int, 2nat);
        lemma_digit_bytes_props(second as int, 2nat);
        lemma_digit_bytes_props(t.nanos as int, 9nat);
        let o = out@;
        assert(o.len() == 30);
        assert(o.subrange(0, 4) =~= digit_bytes(year as int, 4nat));
        assert(o.subrange(5, 7) =~= digit_bytes(month as int, 2nat));
        assert(o.subrange(8, 10) =~= digit_bytes(day as int, 2nat));
        assert(o.subrange(11, 13) =~= digit_bytes(hour as int, 2nat));
        assert(o.subrange(14, 16) =~= digit_bytes(minute as int, 2nat));
        assert(o.subrange(17, 19) =~= digit_bytes(second as int, 2nat));
        assert(o.subrange(20, 29) =~= digit_bytes(t.nanos as int, 9nat));
        assert(o[4] == 45 && o[7] == 45 && o[10] == 84 && o[13] == 58 && o[16] == 58 && o[19]
            == 46 && o[29] == 90);
        assert(fallback_matches(o));
        assert(fallback_nanos(o) == t.nanos) by {
            reveal_with_fuel(pow10, 1);
        }
        assert(fallback_seconds(o) == t.seconds);
    }
    let rendered = ascii_to_string(out);
    Some(rendered)
}

/// Relies on String::from_utf8: bytes below 0x80 are valid UTF-8 and decode
/// to exactly those byte values.
#[verifier::external_body]
fn ascii_to_string(v: Vec<u8>) -> (r: String)
    requires
        forall|i: int| 0 <= i < v@.len() ==> v@[i] < 128,
    ensures
        encode_utf8(r@) == v@,
{
    match String::from_utf8(v) {
        Ok(s) => s,
        Err(_) => String::new(),
    }
}

/// Round trip of the codec: rendering a timestamp and normalizing the text
/// again yields the very same epoch pair, for every renderable pair.
pub fn renormalize(t: &Timestamp) -> (r: Option<Timestamp>)
    ensures
        formatter_in_range(t.seconds as int, t.nanos as int) ==> r == Some(*t),
        !formatter_in_range(t.seconds as int, t.nanos as int) ==> r is None,
{
    match format_timestamp(t) {
        Some(rendered) => {
            match parse_timestamp(rendered.as_str()) {
                Ok(back) => Some(back),
                Err(_) => None,
            }
        },
        None => None,
    }
}

/// What normalization makes of a timestamp's bytes: the RFC-3339 reading
/// where there is one (rejected when its sub-second part reaches a full
/// second), the fallback reading otherwise, and the exact error when both
/// refuse.
pub open spec fn norm_spec(bytes: Seq<u8>) -> Result<(int, int), TimestampError> {
    match rfc3339_norm(bytes) {
        Some(p) => if 0 <= p.1 < 1_000_000_000 {
            Ok(p)
        } else {
            Err(TimestampError::SubsecondOverflow)
        },
        None => match fallback_norm(bytes) {
            Some(p) => Ok(p),
            None => Err(TimestampError::Unparseable),
        },
    }
}

/// Normalizes an ISO-8601 timestamp string: a strict RFC-3339 parse first,
/// the fixed fallback pattern second, an error when both refuse. On success
/// the nanosecond part is always in `[0, 1_000_000_000)`.
pub fn parse_timestamp(time_str: &str) -> (r: Result<Timestamp, TimestampError>)
    ensures
        match norm_spec(time_str.spec_bytes()) {
            Ok(p) => r matches Ok(t) && t.seconds == p.0 && t.nanos == p.1,
            Err(e) => r == Err::<Timestamp, TimestampError>(e),
        },
        r matches Ok(t) ==> 0 <= t.nanos < 1_000_000_000,
        fallback_norm(time_str.spec_bytes()) matches Some(p) ==> r matches Ok(t) && t.seconds
            == p.0 && t.nanos == p.1,
{
    proof {
        if fallback_matches(time_str.spec_bytes()) {
            lemma_fallback_nanos_range(time_str.spec_bytes());
        }
    }
    match rfc3339_to_epoch(time_str) {
        Some(pair) => {
            if pair.1 < 1_000_000_000 {
                Ok(Timestamp { seconds: pair.0, nanos: pair.1 as i32 })
            } else {
                Err(TimestampError::SubsecondOverflow)
            }
        },
        None => {
            match parse_fallback(time_str.as_bytes()) {
                Some(pair) => Ok(Timestamp { seconds: pair.0, nanos: pair.1 }),
                None => Err(TimestampError::Unparseable),
            }
        },
    }
}

} // verus!
