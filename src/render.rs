use vstd::prelude::*;
use crate::csv::{csv_text, texts, CSVErr, CSV};
use crate::stats::{dollar_text, DollarValue, Report};
use crate::text::{decimal, push_decimal};

verus! {

/// The text chrono gives a UTC date-time of `secs` seconds since the Unix
/// epoch, or `None` where chrono has no date-time for it.
pub uninterp spec fn utc_text(secs: int) -> Option<Seq<char>>;

/// Relies on chrono's `DateTime::<Utc>::from_timestamp` and its `Display`:
/// the text of a UTC date-time, `None` when the number of seconds is out of
/// chrono's range.
#[verifier::external_body]
fn timestamp_text(secs: i64) -> (r: Option<String>)
    ensures
        r is Some <==> utc_text(secs as int) is Some,
        r matches Some(t) ==> t@ == utc_text(secs as int)->0,
{
    chrono::DateTime::<chrono::Utc>::from_timestamp(secs, 0).map(|d| d.to_string())
}

/// The cell of a period start: its UTC date-time, empty where there is none.
pub open spec fn start_cell(secs: i64) -> Seq<char> {
    match utc_text(secs as int) {
        Some(t) => t,
        None => seq![],
    }
}

/// The cell of an optional amount; `$0.0` stands for a missing one.
pub open spec fn dollar_cell(d: Option<DollarValue>) -> Seq<char> {
    match d {
        Some(v) => dollar_text(v.value as nat),
        None => seq!['$', '0', '.', '0'],
    }
}

/// The cell of an optional percentage text; `0.0` stands for a missing one.
pub open spec fn percent_cell(p: Option<String>) -> Seq<char> {
    match p {
        Some(t) => t@,
        None => seq!['0', '.', '0'],
    }
}

/// The cells of a report's line, in the order of `report_headers`.
pub open spec fn report_cells(r: Report) -> Seq<Seq<char>> {
    seq![
        start_cell(r.period_start),
        r.symbol@,
        dollar_cell(r.price),
        percent_cell(r.change_percentage),
        dollar_cell(r.min),
        dollar_cell(r.max),
        dollar_cell(r.avg),
    ]
}

/// The header cells; the average's column names the window of `days` days.
pub open spec fn report_headers(days: nat) -> Seq<Seq<char>> {
    seq![
        "period_start"@,
        "symbol"@,
        "price"@,
        "change %"@,
        "min"@,
        "max"@,
        decimal(days) + "d avg"@,
    ]
}

/// The window of the reports' average column: that of the first report, or
/// zero when there is none.
pub open spec fn reports_window(reports: Seq<Report>) -> nat {
    if reports.len() > 0 {
        reports[0].period_length as nat
    } else {
        0
    }
}

fn text_of(lit: &str) -> (r: String)
    ensures
        r@ == lit@,
{
    String::from_str(lit)
}

fn dollar_string(d: Option<DollarValue>) -> (r: String)
    ensures
        r@ == dollar_cell(d),
{
    match d {
        Some(v) => v.to_string(),
        None => {
            proof {
                reveal_strlit("$0.0");
            }
            text_of("$0.0")
        },
    }
}

/// The cells of the report's line: period start, symbol, price, change
/// percentage, minimum, maximum and average, with `$0.0` (`0.0` for the
/// percentage) in place of a missing value.
pub fn report_line(report: &Report) -> (r: Vec<String>)
    ensures
        texts(r@) == report_cells(*report),
{
    let start = match timestamp_text(report.period_start) {
        Some(t) => t,
        None => String::new(),
    };
    let percent = match &report.change_percentage {
        Some(t) => t.clone(),
        None => {
            proof {
                reveal_strlit("0.0");
            }
            text_of("0.0")
        },
    };
    let line: Vec<String> = vec![
        start,
        report.symbol.clone(),
        dollar_string(report.price),
        percent,
        dollar_string(report.min),
        dollar_string(report.max),
        dollar_string(report.avg),
    ];
    assert(line@[0]@ == start_cell(report.period_start));
    assert(line@[1]@ == report.symbol@);
    assert(line@[3]@ == percent_cell(report.change_percentage));
    assert(texts(line@) =~= report_cells(*report));
    line
}

fn header_line(days: u64) -> (r: Vec<String>)
    ensures
        texts(r@) == report_headers(days as nat),
{
    proof {
        reveal_strlit("d avg");
        reveal_strlit("period_start");
        reveal_strlit("symbol");
        reveal_strlit("price");
        reveal_strlit("change %");
        reveal_strlit("min");
        reveal_strlit("max");
    }
    let mut avg: String = String::new();
    push_decimal(&mut avg, days as u128);
    avg.append("d avg");
    let line: Vec<String> = vec![
        text_of("period_start"),
        text_of("symbol"),
        text_of("price"),
        text_of("change %"),
        text_of("min"),
        text_of("max"),
        avg,
    ];
    assert(texts(line@) =~= report_headers(days as nat));
    line
}

/// Appends the CSV text of the reports to `buffer`: a header line, then one
/// line per report in order, cells separated by commas.
pub fn print_csv(buffer: &mut String, reports: &Vec<Report>) -> (r: Result<(), CSVErr>)
    ensures
        r is Ok,
        final(buffer)@ == old(buffer)@ + csv_text(
            report_headers(reports_window(reports@)),
            reports@.map_values(|rep: Report| report_cells(rep)),
            ","@,
        ),
{
    let days: u64 = if reports.len() > 0 {
        reports[0].period_length
    } else {
        0
    };
    let mut csv_report = CSV::new(header_line(days));
    let ghost rows = reports@.map_values(|rep: Report| report_cells(rep));
    let mut i: usize = 0;
    while i < reports.len()
        invariant
            0 <= i <= reports@.len(),
            rows == reports@.map_values(|rep: Report| report_cells(rep)),
            csv_report.wf(),
            csv_report@ == (report_headers(days as nat), rows.take(i as int)),
            days == reports_window(reports@),
        decreases reports@.len() - i,
    {
        let line = report_line(&reports[i]);
        assert(line@.len() == texts(line@).len());
        match csv_report.add_line(line) {
            Ok(()) => {},
            Err(e) => {
                return Err(e);
            },
        }
        proof {
            assert(rows.take(i as int + 1) =~= rows.take(i as int).push(rows[i as int]));
        }
        i += 1;
    }
    proof {
        assert(rows.take(i as int) =~= rows);
        reveal_strlit(",");
    }
    csv_report.write(buffer, ",");
    Ok(())
}

} // verus!
