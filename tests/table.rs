use maha::csv::CSV;
use maha::input::{Input, InputError};
use maha::oracle::{make_report, OHLC};
use maha::render::{print_csv, report_line};
use maha::stats::Report;

fn strings(v: &[&str]) -> Vec<String> {
    v.iter().map(|s| s.to_string()).collect()
}

#[test]
fn csv_rejects_rows_of_another_width() {
    let mut t = CSV::new(strings(&["a", "b"]));
    assert!(t.add_line(strings(&["1"])).is_err());
    assert!(t.add_line(strings(&["1", "2", "3"])).is_err());
    assert!(t.add_line(strings(&["1", "2"])).is_ok());
    let mut out = String::new();
    t.write(&mut out, ",");
    assert_eq!(out, "a,b\n1,2");
}

#[test]
fn csv_writes_header_then_rows() {
    let mut t = CSV::new(strings(&["x", "y", "z"]));
    t.add_line(strings(&["1", "2", "3"])).unwrap();
    t.add_line(strings(&["4", "", "6"])).unwrap();
    let mut out = String::from("> ");
    t.write(&mut out, "; ");
    assert_eq!(out, "> x; y; z\n1; 2; 3\n4; ; 6");
}

#[test]
fn csv_error_message() {
    let mut t = CSV::new(strings(&["a"]));
    let e = t.add_line(vec![]).unwrap_err();
    assert_eq!(e.to_string(), "invalid csv data");
}

#[test]
fn report_line_fills_missing_values() {
    let empty: [u64; 0] = [];
    let r = Report::at(86400, 0, "IBM".to_string(), &empty[..]);
    assert_eq!(
        report_line(&r),
        strings(&["1970-01-01 00:00:00 UTC", "IBM", "$0.0", "0.0", "$0.0", "$0.0", "$0.0"])
    );
}

#[test]
fn csv_of_reports() {
    let start: i64 = 1_600_000_000;
    let r = Report::at(start + 10 * 86400, start, "IBM".to_string(), &[10000u64, 10500, 9500, 11000][..]);
    let mut out = String::new();
    assert!(print_csv(&mut out, &vec![r]).is_ok());
    assert_eq!(
        out,
        "period_start,symbol,price,change %,min,max,10d avg\n\
         2020-09-13 12:26:40 UTC,IBM,$10.00,110.00%,$95.00,$110.00,$102.50"
    );
}

#[test]
fn csv_of_no_reports() {
    let mut out = String::new();
    assert!(print_csv(&mut out, &vec![]).is_ok());
    assert_eq!(out, "period_start,symbol,price,change %,min,max,0d avg");
}

#[test]
fn input_parses_dates() {
    let i = Input::try_new(strings(&["IBM"]), "2020-01-01", "2020-01-02").unwrap();
    assert_eq!(i.tickers, strings(&["IBM"]));
    assert_eq!(i.start, 1_577_836_800);
    assert_eq!(i.end, 1_577_923_200);
}

#[test]
fn input_reports_bad_dates() {
    let e = Input::try_new(strings(&["IBM"]), "2020-13-01", "2020-01-02").unwrap_err();
    assert!(e.to_string().starts_with("start date parse error:\n"));
    let e = Input::try_new(strings(&["IBM"]), "2020-01-01", "soon").unwrap_err();
    assert!(e.to_string().starts_with("end date parse error:\n"));
}

#[test]
fn input_reports_missing_values() {
    let e = Input::from_values(None, Some("2020-01-01".to_string()), None).unwrap_err();
    assert_eq!(e.to_string(), "missing ticker sybmol");
    let e = Input::from_values(Some(strings(&["A"])), None, None).unwrap_err();
    assert_eq!(e.to_string(), "missing start date");
    let e = Input::from_values(Some(strings(&["A"])), Some("2020-01-01".to_string()), None)
        .unwrap_err();
    assert_eq!(e.to_string(), "missing end date");
    let i = Input::from_values(
        Some(strings(&["A", "B"])),
        Some("2020-01-01".to_string()),
        Some("2020-01-03".to_string()),
    )
    .unwrap();
    assert_eq!(i.end - i.start, 2 * 86400);
}

#[test]
fn input_error_keeps_message() {
    assert_eq!(InputError::new("bad".to_string()).to_string(), "bad");
}

#[test]
fn report_of_days() {
    let day = |t: i64, c: u64| OHLC {
        symbol: "IBM".to_string(),
        utc_datetime: t,
        open: c,
        high: c,
        low: c,
        adjclose: c,
    };
    let data = vec![day(100, 300), day(200, 100), day(300, 200)];
    let r = make_report(&data);
    assert_eq!(r.period_start, 100);
    assert_eq!(r.symbol, "IBM");
    assert_eq!(r.min.unwrap().value, 100);
    assert_eq!(r.max.unwrap().value, 300);
    assert_eq!(r.price.unwrap().value, 100);
}
