use vstd::prelude::*;
use crate::text::{fixed2, push_fixed2};
use vstd::arithmetic::div_mod::{lemma_div_by_multiple, lemma_div_is_ordered};

verus! {

/// The smallest element of a non-empty series.
pub open spec fn min_of(s: Seq<u64>) -> u64
    recommends
        s.len() > 0,
    decreases s.len(),
{
    if s.len() <= 1 {
        s[0]
    } else {
        let m = min_of(s.drop_last());
        if s.last() < m {
            s.last()
        } else {
            m
        }
    }
}

/// The largest element of a non-empty series.
pub open spec fn max_of(s: Seq<u64>) -> u64
    recommends
        s.len() > 0,
    decreases s.len(),
{
    if s.len() <= 1 {
        s[0]
    } else {
        let m = max_of(s.drop_last());
        if s.last() > m {
            s.last()
        } else {
            m
        }
    }
}

/// `min_of` is an element of the series and is below every element.
pub proof fn lemma_min_of(s: Seq<u64>)
    requires
        s.len() > 0,
    ensures
        s.contains(min_of(s)),
        forall|i: int| 0 <= i < s.len() ==> min_of(s) <= s[i],
    decreases s.len(),
{
    if s.len() > 1 {
        let t = s.drop_last();
        lemma_min_of(t);
        assert(forall|i: int| 0 <= i < t.len() ==> t[i] == s[i]);
        let j = choose|j: int| 0 <= j < t.len() && t[j] == min_of(t);
        assert(s[j] == t[j]);
        assert(s[s.len() - 1] == s.last());
    } else {
        assert(s[0] == min_of(s));
    }
}

/// `max_of` is an element of the series and is above every element.
pub proof fn lemma_max_of(s: Seq<u64>)
    requires
        s.len() > 0,
    ensures
        s.contains(max_of(s)),
        forall|i: int| 0 <= i < s.len() ==> s[i] <= max_of(s),
    decreases s.len(),
{
    if s.len() > 1 {
        let t = s.drop_last();
        lemma_max_of(t);
        assert(forall|i: int| 0 <= i < t.len() ==> t[i] == s[i]);
        let j = choose|j: int| 0 <= j < t.len() && t[j] == max_of(t);
        assert(s[j] == t[j]);
        assert(s[s.len() - 1] == s.last());
    } else {
        assert(s[0] == max_of(s));
    }
}

/// On every non-empty series, the minimum is at most each element and each
/// element is at most the maximum.
pub proof fn lemma_min_le_all_le_max(s: Seq<u64>)
    requires
        s.len() > 0,
    ensures
        forall|i: int| 0 <= i < s.len() ==> min_of(s) <= #[trigger] s[i] && s[i] <= max_of(s),
{
    lemma_min_of(s);
    lemma_max_of(s);
}

/// The smallest price of the series, or `None` when it is empty.
pub fn min(series: &[u64]) -> (r: Option<u64>)
    ensures
        series@.len() == 0 <==> r is None,
        series@.len() > 0 ==> r == Some(min_of(series@)),
{
    if series.len() == 0 {
        return None;
    }
    let mut m: u64 = series[0];
    let mut i: usize = 1;
    while i < series.len()
        invariant
            1 <= i <= series@.len(),
            m == min_of(series@.take(i as int)),
        decreases series@.len() - i,
    {
        assert(series@.take(i as int + 1).drop_last() == series@.take(i as int));
        if series[i] < m {
            m = series[i];
        }
        i += 1;
    }
    assert(series@.take(i as int) == series@);
    Some(m)
}

/// The largest price of the series, or `None` when it is empty.
///
/// The running maximum starts from the first element, so the result is
/// always an element of the series.
pub fn max(series: &[u64]) -> (r: Option<u64>)
    ensures
        series@.len() == 0 <==> r is None,
        series@.len() > 0 ==> r == Some(max_of(series@)),
{
    if series.len() == 0 {
        return None;
    }
    let mut m: u64 = series[0];
    let mut i: usize = 1;
    while i < series.len()
        invariant
            1 <= i <= series@.len(),
            m == max_of(series@.take(i as int)),
        decreases series@.len() - i,
    {
        assert(series@.take(i as int + 1).drop_last() == series@.take(i as int));
        if series[i] > m {
            m = series[i];
        }
        i += 1;
    }
    assert(series@.take(i as int) == series@);
    Some(m)
}

/// The sum of the elements of a series.
pub open spec fn sum_of(s: Seq<u64>) -> int
    decreases s.len(),
{
    if s.len() == 0 {
        0
    } else {
        sum_of(s.drop_last()) + s.last()
    }
}

/// The arithmetic mean of a non-empty series, rounded down.
pub open spec fn mean_of(s: Seq<u64>) -> int {
    sum_of(s) / (s.len() as int)
}

/// How many consecutive chunks of up to `n` elements a series of `len`
/// elements splits into.
pub open spec fn window_count(len: int, n: int) -> int
    recommends
        n > 0,
{
    (len + n - 1) / n
}

/// The `k`-th chunk of up to `n` consecutive elements of `s`; only the last
/// one can be shorter than `n`.
pub open spec fn window(s: Seq<u64>, n: int, k: int) -> Seq<u64> {
    let start = k * n;
    let end = if start + n < s.len() {
        start + n
    } else {
        s.len() as int
    };
    s.subrange(start, end)
}

proof fn lemma_window_count(len: int, n: int, k: int)
    requires
        n > 0,
        k > 0,
        (k - 1) * n < len,
        len <= k * n,
    ensures
        window_count(len, n) == k,
{
    assert((len + n - 1) / n == k) by (nonlinear_arith)
        requires
            n > 0,
            k > 0,
            (k - 1) * n < len,
            len <= k * n,
    {
        assert((k - 1) * n + n == k * n);
        vstd::arithmetic::div_mod::lemma_fundamental_div_mod(len + n - 1, n);
    };
}

/// Sums `series[start..end]`.
fn window_sum(series: &[u64], start: usize, end: usize) -> (r: u128)
    requires
        start < end <= series@.len(),
    ensures
        r == sum_of(series@.subrange(start as int, end as int)),
        r <= (end - start) * 0xFFFF_FFFF_FFFF_FFFFu64,
{
    let mut sum: u128 = 0;
    let mut j: usize = start;
    while j < end
        invariant
            start <= j <= end <= series@.len(),
            sum == sum_of(series@.subrange(start as int, j as int)),
            sum <= (j - start) * 0xFFFF_FFFF_FFFF_FFFFu64,
        decreases end - j,
    {
        assert(series@.subrange(start as int, j + 1).drop_last() == series@.subrange(
            start as int,
            j as int,
        ));
        proof {
            let c: int = j - start + 1;
            assert(c * 0xFFFF_FFFF_FFFF_FFFFu64 <= 0x1_0000_0000_0000_0000 * 0xFFFF_FFFF_FFFF_FFFFu64)
                by (nonlinear_arith)
                requires
                    c <= 0x1_0000_0000_0000_0000,
            ;
            assert((j - start) * 0xFFFF_FFFF_FFFF_FFFFu64 + 0xFFFF_FFFF_FFFF_FFFFu64 == c
                * 0xFFFF_FFFF_FFFF_FFFFu64) by (nonlinear_arith)
                requires
                    c == j - start + 1,
            ;
        }
        sum = sum + series[j] as u128;
        j += 1;
    }
    sum
}

/// Splits the series into consecutive, non-overlapping chunks of `n`
/// elements (the last chunk may be shorter) and returns the mean of each
/// chunk, rounded down; `None` when the series is empty.
pub fn n_window_sma(n: usize, series: &[u64]) -> (r: Option<Vec<u64>>)
    requires
        n > 0,
    ensures
        series@.len() == 0 <==> r is None,
        r matches Some(v) ==> {
            &&& v@.len() == window_count(series@.len() as int, n as int)
            &&& v@.len() > 0
            &&& forall|k: int|
                0 <= k < v@.len() ==> v@[k] == mean_of(#[trigger] window(series@, n as int, k))
        },
{
    if series.len() == 0 {
        return None;
    }
    let len = series.len();
    let mut out: Vec<u64> = Vec::new();
    let mut start: usize = 0;
    assert(out@.len() * n == 0) by (nonlinear_arith)
        requires
            out@.len() == 0,
    ;
    while start < len
        invariant
            len == series@.len(),
            n > 0,
            start <= len,
            start < len ==> start == out@.len() * n,
            start == len ==> out@.len() > 0 && (out@.len() - 1) * n < len && len <= out@.len() * n,
            forall|k: int|
                0 <= k < out@.len() ==> out@[k] == mean_of(#[trigger] window(series@, n as int, k)),
        decreases len - start,
    {
        let end: usize = if len - start > n {
            start + n
        } else {
            len
        };
        let sum = window_sum(series, start, end);
        let count: usize = end - start;
        proof {
            let k = out@.len() as int;
            assert(window(series@, n as int, k) == series@.subrange(start as int, end as int));
            lemma_div_is_ordered(
                sum as int,
                count * 0xFFFF_FFFF_FFFF_FFFFu64,
                count as int,
            );
            lemma_div_by_multiple(0xFFFF_FFFF_FFFF_FFFFu64 as int, count as int);
            assert(count * 0xFFFF_FFFF_FFFF_FFFFu64 == 0xFFFF_FFFF_FFFF_FFFFu64 * count)
                by (nonlinear_arith);
            assert((k + 1) * n == k * n + n) by (nonlinear_arith);
        }
        let avg: u64 = (sum / (count as u128)) as u64;
        out.push(avg);
        start = end;
    }
    proof {
        lemma_window_count(len as int, n as int, out@.len() as int);
    }
    Some(out)
}

/// Compares the first and the last price of a series: `(percentage,
/// absolute_difference)`, or `None` when the series has fewer than two
/// elements.
///
/// `percentage` is the last price as a share of the first, in hundredths of
/// a percent and rounded down (`last / first * 100`, not a change), and is
/// `None` when the first price is zero. `absolute_difference` is
/// `|last - first|`.
pub fn price_diff(series: &[u64]) -> (r: Option<(Option<u128>, u64)>)
    ensures
        series@.len() < 2 <==> r is None,
        r matches Some((p, d)) ==> {
            &&& d == abs_diff(series@.first(), series@.last())
            &&& p == share_of(series@.first(), series@.last())
        },
{
    if series.len() <= 1 {
        return None;
    }
    let first = series[0];
    let last = series[series.len() - 1];
    let percentage: Option<u128> = if first == 0 {
        None
    } else {
        Some((last as u128 * 10000) / first as u128)
    };
    let absolute_diff: u64 = if last >= first {
        last - first
    } else {
        first - last
    };
    Some((percentage, absolute_diff))
}

/// `|b - a|`.
pub open spec fn abs_diff(a: u64, b: u64) -> u64 {
    if b >= a {
        (b - a) as u64
    } else {
        (a - b) as u64
    }
}

/// `b` as a share of `a`, in hundredths of a percent and rounded down;
/// `None` when `a` is zero.
pub open spec fn share_of(a: u64, b: u64) -> Option<u128> {
    if a == 0 {
        None
    } else {
        Some(((b * 10000) / (a as int)) as u128)
    }
}

/// A money amount in hundredths (cents).
#[derive(Debug, Clone, Copy, PartialEq, Eq)]
pub struct DollarValue {
    pub value: u64,
}

impl DollarValue {
    pub open spec fn new_spec(value: u64) -> DollarValue {
        DollarValue { value }
    }

    pub fn new(value: u64) -> (r: DollarValue)
        ensures
            r.value == value,
    {
        DollarValue { value }
    }

    /// The amount as `$` followed by the units and two decimals (`$12.05`).
    pub fn to_string(&self) -> (r: String)
        ensures
            r@ == dollar_text(self.value as nat),
    {
        let mut out: String = String::new();
        push_char_dollar(&mut out);
        push_fixed2(&mut out, self.value as u128);
        out
    }
}

/// The text of an amount of `v` hundredths: `$` and two decimals.
pub open spec fn dollar_text(v: nat) -> Seq<char> {
    seq!['$'] + fixed2(v)
}

/// The text of a share of `v` hundredths of a percent: two decimals and `%`.
pub open spec fn percent_text(v: nat) -> Seq<char> {
    fixed2(v).push('%')
}

fn push_char_dollar(out: &mut String)
    ensures
        final(out)@ == old(out)@ + seq!['$'],
{
    let lit = "$";
    proof {
        reveal_strlit("$");
    }
    out.append(lit);
}

fn percent_string(v: u128) -> (r: String)
    ensures
        r@ == percent_text(v as nat),
{
    let mut out: String = String::new();
    push_fixed2(&mut out, v);
    let lit = "%";
    proof {
        reveal_strlit("%");
    }
    out.append(lit);
    assert(out@ == percent_text(v as nat));
    out
}

/// The mean of the last chunk when the series is split into chunks of `n`.
pub open spec fn last_window_mean(s: Seq<u64>, n: int) -> int {
    mean_of(window(s, n, window_count(s.len() as int, n) - 1))
}

/// Whole days from `start` to `now` (both in seconds since the Unix epoch),
/// or zero when `start` is not before `now`.
pub open spec fn elapsed_days(now: i64, start: i64) -> int {
    if now > start {
        (now - start) / 86400
    } else {
        0
    }
}

/// Relies on chrono's `Utc::now` and `DateTime::timestamp`: the current time
/// in seconds since the Unix epoch.
#[verifier::external_body]
fn now_timestamp() -> (r: i64) {
    chrono::Utc::now().timestamp()
}

/// A summary of one symbol's closing prices over a period.
#[derive(Debug, Clone)]
pub struct Report {
    /// Start of the period, in seconds since the Unix epoch (UTC).
    pub period_start: i64,
    /// Whole days from the start of the period to the time of the report.
    pub period_length: u64,
    pub symbol: String,
    /// Difference between the last and the first price.
    pub price: Option<DollarValue>,
    /// The last price as a share of the first, as text (`110.00%`).
    pub change_percentage: Option<String>,
    pub min: Option<DollarValue>,
    pub max: Option<DollarValue>,
    /// Mean of the last chunk of `period_length` prices.
    pub avg: Option<DollarValue>,
}

impl Report {
    /// Builds the report of a series of closing prices, as of now.
    pub fn new(period_start: i64, symbol: String, adjclose_series: &[u64]) -> (r: Report)
        ensures
            r.period_start == period_start,
            r.symbol@ == symbol@,
            report_stats(r, adjclose_series@),
    {
        let now = now_timestamp();
        Report::at(now, period_start, symbol, adjclose_series)
    }

    /// Builds the report of a series of closing prices as of the time `now`
    /// (seconds since the Unix epoch).
    ///
    /// The moving average uses chunks of `period_length` prices and reports
    /// the mean of the last chunk; there is none when `period_length` is
    /// zero.
    pub fn at(now: i64, period_start: i64, symbol: String, adjclose_series: &[u64]) -> (r: Report)
        ensures
            r.period_start == period_start,
            r.period_length == elapsed_days(now, period_start),
            r.symbol@ == symbol@,
            report_stats(r, adjclose_series@),
    {
        let s = Ghost(adjclose_series@);
        let period_length: u64 = if now > period_start {
            ((now as i128 - period_start as i128) / 86400) as u64
        } else {
            0
        };
        let len = adjclose_series.len();
        let avg: Option<DollarValue> = if len == 0 || period_length == 0 {
            None
        } else {
            let n: usize = if period_length >= len as u64 {
                len
            } else {
                period_length as usize
            };
            match n_window_sma(n, adjclose_series) {
                Some(v) => {
                    proof {
                        if n == len {
                            lemma_window_count(len as int, len as int, 1);
                            lemma_window_count(len as int, period_length as int, 1);
                            assert(window(s@, len as int, 0) == window(
                                s@,
                                period_length as int,
                                0,
                            ));
                        }
                    }
                    Some(DollarValue::new(v[v.len() - 1]))
                },
                None => None,
            }
        };
        let min = match min(adjclose_series) {
            Some(m) => Some(DollarValue::new(m)),
            None => None,
        };
        let max = match max(adjclose_series) {
            Some(m) => Some(DollarValue::new(m)),
            None => None,
        };
        let (change_percentage, price) = match price_diff(adjclose_series) {
            Some((perc, absolute_diff)) => {
                let text = match perc {
                    Some(p) => Some(percent_string(p)),
                    None => None,
                };
                (text, Some(DollarValue::new(absolute_diff)))
            },
            None => (None, None),
        };
        Report { period_start, period_length, symbol, price, change_percentage, min, max, avg }
    }
}

/// What a report holds of the series `s` it was built from, given its
/// `period_length`.
pub open spec fn report_stats(r: Report, s: Seq<u64>) -> bool {
    &&& r.min == if s.len() > 0 {
        Some(DollarValue::new_spec(min_of(s)))
    } else {
        None
    }
    &&& r.max == if s.len() > 0 {
        Some(DollarValue::new_spec(max_of(s)))
    } else {
        None
    }
    &&& r.avg == if s.len() > 0 && r.period_length > 0 {
        Some(DollarValue::new_spec(last_window_mean(s, r.period_length as int) as u64))
    } else {
        None
    }
    &&& r.price == if s.len() >= 2 {
        Some(DollarValue::new_spec(abs_diff(s.first(), s.last())))
    } else {
        None
    }
    &&& (r.change_percentage is Some <==> s.len() >= 2 && s.first() != 0)
    &&& (r.change_percentage matches Some(t) ==> t@ == percent_text(
        share_of(s.first(), s.last())->0 as nat,
    ))
}

/// A report built from an empty series holds no price, change percentage,
/// minimum, maximum or average, and its period length is the whole number of
/// days elapsed since the period start (zero when that is not in the past).
pub proof fn lemma_empty_series_report(r: Report, now: i64, period_start: i64)
    requires
        r.period_length == elapsed_days(now, period_start),
        report_stats(r, Seq::<u64>::empty()),
    ensures
        r.price is None,
        r.change_percentage is None,
        r.min is None,
        r.max is None,
        r.avg is None,
        0 <= r.period_length,
        now > period_start ==> r.period_length == (now - period_start) / 86400,
        now <= period_start ==> r.period_length == 0,
{
}

} // verus!
