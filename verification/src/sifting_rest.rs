//! The SiftingIO history request that seeds the volume profile, and the
//! checks its answer must pass.
use vstd::prelude::*;
use crate::session::DAY_MS;
use crate::text::{
    Pat, chars_of, concat_chars, decimal_digits, eq_ignore_ascii_case, eq_ignore_case,
    same_chars, string_of, trim_end_by, trim_end_chars_by, u64_to_decimal,
};

verus! {

/// The VP seed is deliberately fixed to the largest page SiftingIO permits.
pub const SIFTING_HISTORY_CANDLE_LIMIT: usize = 2_000;

/// The request window: wider than 2,000 15-minute buckets so that a feed
/// with weekend/session gaps still returns the newest 2,000 bars.
pub const HISTORY_LOOKBACK_DAYS: i64 = 60;

/// The RFC 3339 text chrono writes for the UTC instant `ms` with whole
/// seconds and a `Z` suffix; None where chrono cannot represent `ms`.
pub uninterp spec fn utc_rfc3339_secs(ms: i64) -> Option<Seq<char>>;

/// Calls `Utc.timestamp_millis_opt(ms)` and, for a single result,
/// `to_rfc3339_opts(SecondsFormat::Secs, true)`. The contract only names the
/// text.
#[verifier::external_body]
fn rfc3339_secs_z(ms: i64) -> (r: Option<String>)
    ensures
        match r {
            Some(t) => utc_rfc3339_secs(ms) == Some(t@),
            None => utc_rfc3339_secs(ms) is None,
        },
{
    match chrono::TimeZone::timestamp_millis_opt(&chrono::Utc, ms) {
        chrono::LocalResult::Single(t) => Some(t.to_rfc3339_opts(chrono::SecondsFormat::Secs, true)),
        _ => None,
    }
}

/// The one-page request for the newest 2,000 15m bars of `symbol`, from
/// `start` to `end` (timestamp texts), newest first.
pub open spec fn spec_history_url_from(base: Seq<char>, symbol: Seq<char>, start: Seq<char>, end: Seq<char>) -> Seq<char> {
    trim_end_by(base, Pat::Char('/')) + "/v1/hist/commodities/"@ + symbol + "/bars?start="@ + start + "&end="@
        + end + "&interval=15m&order=desc&limit="@ + decimal_digits(SIFTING_HISTORY_CANDLE_LIMIT as nat)
}

/// The request asked for the 60 days up to `now`.
pub open spec fn spec_history_url(base: Seq<char>, symbol: Seq<char>, now: i64) -> Option<Seq<char>> {
    let start_ms = now - HISTORY_LOOKBACK_DAYS * DAY_MS;
    if start_ms < i64::MIN {
        None
    } else {
        match (utc_rfc3339_secs(start_ms as i64), utc_rfc3339_secs(now)) {
            (Some(start), Some(end)) => Some(spec_history_url_from(base, symbol, start, end)),
            _ => None,
        }
    }
}

/// The one-page request for the newest 2,000 15m bars of `symbol` between
/// the timestamp texts `start` and `end` (the base URL's trailing slashes
/// dropped).
pub fn history_url_from(base_url: &str, symbol: &str, start: &str, end: &str) -> (u: String)
    ensures
        u@ == spec_history_url_from(base_url@, symbol@, start@, end@),
{
    let mut u = trim_end_chars_by(&chars_of(base_url), Pat::Char('/'));
    u = concat_chars(&u, &chars_of("/v1/hist/commodities/"));
    u = concat_chars(&u, &chars_of(symbol));
    u = concat_chars(&u, &chars_of("/bars?start="));
    u = concat_chars(&u, &chars_of(start));
    u = concat_chars(&u, &chars_of("&end="));
    u = concat_chars(&u, &chars_of(end));
    u = concat_chars(&u, &chars_of("&interval=15m&order=desc&limit="));
    u = concat_chars(&u, &u64_to_decimal(SIFTING_HISTORY_CANDLE_LIMIT as u64));
    string_of(&u)
}

/// Build the one-page request used for the VP seed (`now_ms` is the
/// current time in epoch ms). None where chrono cannot represent the
/// window's instants.
pub fn history_url(base_url: &str, symbol: &str, now_ms: i64) -> (r: Option<String>)
    ensures
        match r {
            Some(u) => spec_history_url(base_url@, symbol@, now_ms) == Some(u@),
            None => spec_history_url(base_url@, symbol@, now_ms) is None,
        },
{
    let start_ms = match now_ms.checked_sub(HISTORY_LOOKBACK_DAYS * DAY_MS) {
        Some(s) => s,
        None => return None,
    };
    match (rfc3339_secs_z(start_ms), rfc3339_secs_z(now_ms)) {
        (Some(a), Some(b)) => Some(history_url_from(base_url, symbol, a.as_str(), b.as_str())),
        _ => None,
    }
}

/// Why a history page was refused.
#[derive(Debug, Clone)]
pub enum HistoryError {
    /// The page does not hold exactly 2,000 bars (it held this many).
    WrongCount(usize),
    /// The page is for another symbol (this one).
    WrongSymbol(String),
    /// The page's bars are not 15-minute bars (this interval).
    WrongInterval(String),
    /// A bar has a non-finite or negative value, `high < low`, or a
    /// non-positive time.
    InvalidBar,
    /// Two bars share a timestamp.
    DuplicateTime,
}

/// The checks on a page's shape, in the order they are made: exactly 2,000
/// bars, then the symbol (ASCII case-insensitively) if the page names one,
/// then the interval "15m" if the page names one.
pub open spec fn spec_check_page(
    len: usize,
    meta_symbol: Option<Seq<char>>,
    meta_interval: Option<Seq<char>>,
    symbol: Seq<char>,
) -> Result<(), HistoryError> {
    if len != SIFTING_HISTORY_CANDLE_LIMIT {
        Err(HistoryError::WrongCount(len))
    } else if meta_symbol is Some && !eq_ignore_case(meta_symbol->0, symbol) {
        Err(HistoryError::WrongSymbol(arbitrary()))
    } else if meta_interval is Some && meta_interval->0 != "15m"@ {
        Err(HistoryError::WrongInterval(arbitrary()))
    } else {
        Ok(())
    }
}

pub open spec fn opt_str_view(o: Option<&str>) -> Option<Seq<char>> {
    match o {
        Some(s) => Some(s@),
        None => None,
    }
}

/// Check a page's bar count and metadata (see `spec_check_page`); a
/// symbol or interval error carries the value the page named.
pub fn check_history_page(
    len: usize,
    meta_symbol: Option<&str>,
    meta_interval: Option<&str>,
    symbol: &str,
) -> (r: Result<(), HistoryError>)
    ensures
        match (r, spec_check_page(len, opt_str_view(meta_symbol), opt_str_view(meta_interval), symbol@)) {
            (Ok(_), Ok(_)) => true,
            (Err(HistoryError::WrongCount(n)), Err(HistoryError::WrongCount(m))) => n == m,
            (Err(HistoryError::WrongSymbol(s)), Err(HistoryError::WrongSymbol(_))) => s@ == meta_symbol->0@,
            (Err(HistoryError::WrongInterval(s)), Err(HistoryError::WrongInterval(_))) => s@ == meta_interval->0@,
            _ => false,
        },
{
    if len != SIFTING_HISTORY_CANDLE_LIMIT {
        return Err(HistoryError::WrongCount(len));
    }
    if let Some(s) = meta_symbol {
        if !eq_ignore_ascii_case(&chars_of(s), &chars_of(symbol)) {
            return Err(HistoryError::WrongSymbol(s.to_owned()));
        }
    }
    if let Some(i) = meta_interval {
        if !same_chars(&chars_of(i), &chars_of("15m")) {
            return Err(HistoryError::WrongInterval(i.to_owned()));
        }
    }
    Ok(())
}

/// One history bar as it arrived: its time and, for each price and the
/// volume, the IEEE-754 bit pattern of the `f64`.
#[derive(Debug, Clone, Copy, PartialEq, Eq)]
pub struct HistoryBar {
    pub time: i64,
    pub open_bits: u64,
    pub high_bits: u64,
    pub low_bits: u64,
    pub close_bits: u64,
    pub volume_bits: u64,
}

/// The sign bit of an `f64`.
pub const SIGN_BIT: u64 = 0x8000_0000_0000_0000;

/// The exponent field of an `f64`.
pub const EXPONENT_BITS: u64 = 0x7ff0_0000_0000_0000;

/// The `f64` with these bits is finite: its exponent is not all ones (all
/// ones is an infinity or a NaN).
pub open spec fn finite_bits(b: u64) -> bool {
    b & EXPONENT_BITS != EXPONENT_BITS
}

/// Where a finite `f64` stands in the order of the numbers: its magnitude
/// bits, negated when the sign bit is set (so both zeros stand at 0).
pub open spec fn float_rank(b: u64) -> int {
    if b < SIGN_BIT {
        b as int
    } else {
        -(b - SIGN_BIT)
    }
}

/// A bar fit to seed the profiles: every price and the volume finite, the
/// volume not below zero, high not below low, and a positive time.
pub open spec fn spec_bar_is_valid(b: HistoryBar) -> bool {
    &&& finite_bits(b.open_bits)
    &&& finite_bits(b.high_bits)
    &&& finite_bits(b.low_bits)
    &&& finite_bits(b.close_bits)
    &&& finite_bits(b.volume_bits)
    &&& float_rank(b.volume_bits) >= 0
    &&& float_rank(b.high_bits) >= float_rank(b.low_bits)
    &&& b.time > 0
}

fn is_finite_bits(b: u64) -> (r: bool)
    ensures
        r == finite_bits(b),
{
    b & EXPONENT_BITS != EXPONENT_BITS
}

/// `float_rank(a) >= float_rank(b)`.
fn rank_ge(a: u64, b: u64) -> (r: bool)
    ensures
        r == (float_rank(a) >= float_rank(b)),
{
    if a < SIGN_BIT {
        if b < SIGN_BIT {
            a >= b
        } else {
            true
        }
    } else if b < SIGN_BIT {
        a == SIGN_BIT && b == 0
    } else {
        a <= b
    }
}

/// Whether a history bar may seed the profiles (see `spec_bar_is_valid`).
pub fn bar_is_valid(b: &HistoryBar) -> (r: bool)
    ensures
        r == spec_bar_is_valid(*b),
{
    is_finite_bits(b.open_bits) && is_finite_bits(b.high_bits) && is_finite_bits(b.low_bits)
        && is_finite_bits(b.close_bits) && is_finite_bits(b.volume_bits) && rank_ge(b.volume_bits, 0)
        && rank_ge(b.high_bits, b.low_bits) && b.time > 0
}

/// Every bar of a page is valid, else `InvalidBar`.
pub fn check_bars(bars: &Vec<HistoryBar>) -> (r: Result<(), HistoryError>)
    ensures
        r is Ok <==> forall|i: int| 0 <= i < bars@.len() ==> spec_bar_is_valid(#[trigger] bars@[i]),
        r matches Err(e) ==> e is InvalidBar,
{
    for i in 0..bars.len()
        invariant
            forall|k: int| 0 <= k < i ==> spec_bar_is_valid(#[trigger] bars@[k]),
    {
        if !bar_is_valid(&bars[i]) {
            return Err(HistoryError::InvalidBar);
        }
    }
    Ok(())
}

/// Two bars share a timestamp.
pub open spec fn has_duplicate_time(t: Seq<i64>) -> bool {
    exists|i: int, j: int| 0 <= i < j < t.len() && #[trigger] t[i] == #[trigger] t[j]
}

/// `perm` lists bars of `t` (by index) in strictly increasing time.
pub open spec fn increasing_by_time(t: Seq<i64>, perm: Seq<usize>) -> bool {
    &&& forall|k: int| 0 <= k < perm.len() ==> #[trigger] perm[k] < t.len()
    &&& forall|a: int, b: int| 0 <= a < b < perm.len() ==> t[#[trigger] perm[a] as int] < t[#[trigger] perm[b] as int]
}

/// The bar index `k` is listed in `perm`.
pub open spec fn listed(perm: Seq<usize>, k: int) -> bool {
    exists|pos: int| 0 <= pos < perm.len() && #[trigger] perm[pos] == k
}

/// Every bar index below `n` is listed in `perm`.
pub open spec fn lists_all(perm: Seq<usize>, n: int) -> bool {
    forall|k: int| 0 <= k < n ==> #[trigger] listed(perm, k)
}

/// The order in which to keep the bars of a page: by increasing time. A
/// page with two bars at one time is refused.
pub fn order_seed(times: &Vec<i64>) -> (r: Result<Vec<usize>, HistoryError>)
    ensures
        match r {
            Ok(perm) => !has_duplicate_time(times@) && perm@.len() == times@.len() && increasing_by_time(
                times@,
                perm@,
            ) && lists_all(perm@, times@.len() as int),
            Err(e) => e is DuplicateTime && has_duplicate_time(times@),
        },
{
    let n = times.len();
    let mut perm: Vec<usize> = Vec::new();
    for i in 0..n
        invariant
            n == times@.len(),
            perm@.len() == i,
            forall|k: int| 0 <= k < perm@.len() ==> #[trigger] perm@[k] < i,
            increasing_by_time(times@, perm@),
            lists_all(perm@, i as int),
    {
        let t = times[i];
        let mut p: usize = 0;
        while p < perm.len() && times[perm[p]] < t
            invariant
                n == times@.len(),
                i < n,
                t == times@[i as int],
                perm@.len() == i,
                forall|k: int| 0 <= k < perm@.len() ==> #[trigger] perm@[k] < i,
                p <= perm@.len(),
                forall|k: int| 0 <= k < p ==> times@[#[trigger] perm@[k] as int] < t,
            decreases perm@.len() - p,
        {
            p += 1;
        }
        if p < perm.len() && times[perm[p]] == t {
            proof {
                let j = perm@[p as int] as int;
                assert(j < i);
                assert(times@[j] == times@[i as int]);
            }
            return Err(HistoryError::DuplicateTime);
        }
        let ghost old_perm = perm@;
        perm.insert(p, i);
        proof {
            let np = perm@;
            assert(np =~= old_perm.insert(p as int, i));
            assert forall|k: int| 0 <= k < np.len() implies #[trigger] np[k] < i + 1 by {
                if k < p {
                    assert(np[k] == old_perm[k]);
                } else if k > p {
                    assert(np[k] == old_perm[k - 1]);
                }
            }
            assert forall|a: int, b: int| 0 <= a < b < np.len() implies times@[#[trigger] np[a] as int]
                < times@[#[trigger] np[b] as int] by {
                if b < p {
                    assert(np[a] == old_perm[a]);
                    assert(np[b] == old_perm[b]);
                } else if b == p {
                    assert(np[a] == old_perm[a]);
                } else if a < p {
                    assert(np[a] == old_perm[a]);
                    assert(np[b] == old_perm[b - 1]);
                    assert(times@[old_perm[p as int] as int] >= t);
                    if b - 1 > p {
                        assert(times@[old_perm[p as int] as int] < times@[old_perm[b - 1] as int]);
                    }
                } else if a == p {
                    assert(np[b] == old_perm[b - 1]);
                    assert(times@[old_perm[p as int] as int] >= t);
                    assert(times@[old_perm[p as int] as int] != t);
                    if b - 1 > p {
                        assert(times@[old_perm[p as int] as int] < times@[old_perm[b - 1] as int]);
                    }
                } else {
                    assert(np[a] == old_perm[a - 1]);
                    assert(np[b] == old_perm[b - 1]);
                }
            }
            assert forall|k: int| 0 <= k < i + 1 implies #[trigger] listed(np, k) by {
                if k == i {
                    assert(np[p as int] == i);
                } else {
                    assert(listed(old_perm, k));
                    let q = choose|pos: int| 0 <= pos < old_perm.len() && old_perm[pos] == k;
                    if q < p {
                        assert(np[q] == k);
                    } else {
                        assert(np[q + 1] == k);
                    }
                }
            }
        }
    }
    proof {
        let ps = perm@;
        assert forall|a: int, b: int| 0 <= a < b < times@.len() implies #[trigger] times@[a] != #[trigger] times@[b] by {
            assert(listed(ps, a));
            assert(listed(ps, b));
            let qa = choose|pos: int| 0 <= pos < ps.len() && ps[pos] == a;
            let qb = choose|pos: int| 0 <= pos < ps.len() && ps[pos] == b;
            assert(ps[qa] == a);
            assert(ps[qb] == b);
            assert(qa != qb);
            if qa < qb {
                assert(times@[ps[qa] as int] < times@[ps[qb] as int]);
            } else {
                assert(times@[ps[qb] as int] < times@[ps[qa] as int]);
            }
        }
    }
    Ok(perm)
}

impl HistoryError {
    /// The error's text, as the engine logs it.
    pub fn message(&self, symbol: &str) -> (m: String)
        ensures
            self matches HistoryError::WrongCount(n) ==> m@ == "SiftingIO returned "@ + decimal_digits(
                n as nat,
            ) + " candles; VP requires exactly "@ + decimal_digits(SIFTING_HISTORY_CANDLE_LIMIT as nat),
            self matches HistoryError::WrongSymbol(s) ==> m@ == "SiftingIO returned symbol "@ + s@
                + ", expected "@ + symbol@,
            self matches HistoryError::WrongInterval(s) ==> m@ == "SiftingIO returned interval "@ + s@
                + ", expected 15m"@,
            self is InvalidBar ==> m@ == "SiftingIO returned an invalid OHLCV bar"@,
            self is DuplicateTime ==> m@ == "SiftingIO returned duplicate candle timestamps"@,
    {
        let v = match self {
            HistoryError::WrongCount(n) => {
                let mut v = chars_of("SiftingIO returned ");
                v = concat_chars(&v, &u64_to_decimal(*n as u64));
                v = concat_chars(&v, &chars_of(" candles; VP requires exactly "));
                concat_chars(&v, &u64_to_decimal(SIFTING_HISTORY_CANDLE_LIMIT as u64))
            },
            HistoryError::WrongSymbol(s) => {
                let mut v = chars_of("SiftingIO returned symbol ");
                v = concat_chars(&v, &chars_of(s.as_str()));
                v = concat_chars(&v, &chars_of(", expected "));
                concat_chars(&v, &chars_of(symbol))
            },
            HistoryError::WrongInterval(s) => {
                let v = concat_chars(&chars_of("SiftingIO returned interval "), &chars_of(s.as_str()));
                concat_chars(&v, &chars_of(", expected 15m"))
            },
            HistoryError::InvalidBar => chars_of("SiftingIO returned an invalid OHLCV bar"),
            HistoryError::DuplicateTime => chars_of("SiftingIO returned duplicate candle timestamps"),
        };
        string_of(&v)
    }
}

} // verus!
