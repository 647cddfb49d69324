use vstd::prelude::*;
use crate::stats::{report_stats, Report};
use yahoo_finance_api::YahooError;

verus! {

#[verifier::external_type_specification]
#[verifier::external_body]
pub struct ExYahooError(YahooError);

/// A failure of the market-data provider, tagged with the provider it came
/// from.
#[derive(Debug)]
pub enum OracleError {
    Yahoo(YahooError),
}

impl From<YahooError> for OracleError {
    fn from(err: YahooError) -> (r: OracleError) {
        OracleError::Yahoo(err)
    }
}

impl vstd::std_specs::convert::FromSpecImpl<YahooError> for OracleError {
    open spec fn obeys_from_spec() -> bool {
        true
    }

    open spec fn from_spec(err: YahooError) -> OracleError {
        OracleError::Yahoo(err)
    }
}

/// One trading day of a symbol: its time in seconds since the Unix epoch
/// (UTC) and its prices in hundredths.
#[derive(Debug, Clone)]
pub struct OHLC {
    pub symbol: String,
    pub utc_datetime: i64,
    pub open: u64,
    pub high: u64,
    pub low: u64,
    pub adjclose: u64,
}

/// The adjusted closing prices of the days, in order.
pub open spec fn closes(data: Seq<OHLC>) -> Seq<u64> {
    data.map_values(|d: OHLC| d.adjclose)
}

/// The adjusted closing prices of the days, in order.
pub fn adjclose_series(data: &Vec<OHLC>) -> (r: Vec<u64>)
    ensures
        r@ == closes(data@),
{
    let mut out: Vec<u64> = Vec::new();
    let mut i: usize = 0;
    while i < data.len()
        invariant
            0 <= i <= data@.len(),
            out@ == closes(data@.take(i as int)),
        decreases data@.len() - i,
    {
        out.push(data[i].adjclose);
        proof {
            assert(closes(data@.take(i as int + 1)) =~= closes(data@.take(i as int)).push(
                data@[i as int].adjclose,
            ));
        }
        i += 1;
    }
    proof {
        assert(data@.take(i as int) =~= data@);
    }
    out
}

/// The report of a non-empty run of days of one symbol: its period starts
/// on the first day, and its statistics are those of the closing prices.
pub fn make_report(data: &Vec<OHLC>) -> (r: Report)
    requires
        data@.len() > 0,
    ensures
        r.period_start == data@[0].utc_datetime,
        r.symbol@ == data@[0].symbol@,
        report_stats(r, closes(data@)),
{
    let datum = &data[0];
    let series = adjclose_series(data);
    Report::new(datum.utc_datetime, datum.symbol.clone(), series.as_slice())
}

} // verus!
