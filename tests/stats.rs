use maha::stats::{max, min, n_window_sma, price_diff, DollarValue, Report};

#[test]
fn min_some() {
    let example: [u64; 4] = [100, 200, 320, 890];
    let maybe_res = min(&example[..]);
    assert!(maybe_res.is_some());
    if let Some(res) = maybe_res {
        assert_eq!(res, 100);
    }
}

#[test]
fn min_none() {
    let example: [u64; 0] = [];
    assert!(min(&example[..]).is_none());
}

#[test]
fn max_some() {
    let example: [u64; 4] = [100, 200, 320, 890];
    let maybe_res = max(&example[..]);
    assert!(maybe_res.is_some());
    if let Some(res) = maybe_res {
        assert_eq!(res, 890);
    }
}

#[test]
fn max_none() {
    let example: [u64; 0] = [];
    assert!(max(&example[..]).is_none());
}

#[test]
fn windows_sma_some() {
    let example: [u64; 10] = [100, 200, 320, 800, 100, 200, 320, 800, 100, 200];
    let maybe_res = n_window_sma(2, &example[..]);
    assert!(maybe_res.is_some());
    let expected: Vec<u64> = vec![150, 560, 150, 560, 150];
    if let Some(res) = maybe_res {
        assert_eq!(res, expected);
    }
}

#[test]
fn windows_sma_none() {
    let example: [u64; 0] = [];
    assert!(n_window_sma(2, &example[..]).is_none());
}

#[test]
fn price_diff_none() {
    let ex1: [u64; 0] = [];
    let ex2: [u64; 1] = [100];
    assert!(price_diff(&ex1[..]).is_none() && price_diff(&ex2[..]).is_none());
}

#[test]
fn price_diff_some() {
    let example: [u64; 4] = [100, 200, 320, 890];
    let maybe_res = price_diff(&example[..]);
    assert!(maybe_res.is_some());
    // 890 / 100 * 100 percent, in hundredths of a percent
    let expected_percentage: u128 = (example[3] as u128 * 10000) / example[0] as u128;
    let expected_diff: u64 = example[3] - example[0];
    if let Some((actual_percentage, actual_diff)) = maybe_res {
        assert_eq!(actual_percentage, Some(expected_percentage));
        assert_eq!(actual_percentage, Some(89000));
        assert_eq!(actual_diff, expected_diff);
    }
}

#[test]
fn min_and_max_bound_every_element() {
    let example: [u64; 6] = [530, 12, 999, 12, 47, 998];
    let lo = min(&example[..]).unwrap();
    let hi = max(&example[..]).unwrap();
    assert_eq!(lo, 12);
    assert_eq!(hi, 999);
    for v in example.iter() {
        assert!(lo <= *v && *v <= hi);
    }
}

#[test]
fn max_of_single_element_is_that_element() {
    assert_eq!(max(&[7u64][..]), Some(7));
    assert_eq!(min(&[7u64][..]), Some(7));
}

#[test]
fn windows_sma_last_window_shorter() {
    let example: [u64; 5] = [10, 20, 30, 40, 51];
    assert_eq!(n_window_sma(2, &example[..]), Some(vec![15, 35, 51]));
    assert_eq!(n_window_sma(3, &example[..]), Some(vec![20, 45]));
    assert_eq!(n_window_sma(9, &example[..]), Some(vec![30]));
}

#[test]
fn windows_sma_rounds_down() {
    assert_eq!(n_window_sma(2, &[1u64, 2][..]), Some(vec![1]));
}

#[test]
fn windows_sma_largest_values() {
    let example: [u64; 3] = [u64::MAX, u64::MAX, u64::MAX];
    assert_eq!(n_window_sma(3, &example[..]), Some(vec![u64::MAX]));
}

#[test]
fn price_diff_falling_and_zero_first() {
    assert_eq!(price_diff(&[200u64, 150][..]), Some((Some(7500), 50)));
    assert_eq!(price_diff(&[0u64, 150][..]), Some((None, 150)));
}

#[test]
fn dollar_value_text() {
    assert_eq!(DollarValue::new(9500).to_string(), "$95.00");
    assert_eq!(DollarValue::new(5).to_string(), "$0.05");
    assert_eq!(DollarValue::new(123456).to_string(), "$1234.56");
}

#[test]
fn report_of_rising_series_ten_days_ago() {
    let now: i64 = 1_700_000_000;
    let start = now - 10 * 86400;
    let series: [u64; 4] = [10000, 10500, 9500, 11000];
    let r = Report::at(now, start, "IBM".to_string(), &series[..]);
    assert_eq!(r.period_start, start);
    assert_eq!(r.period_length, 10);
    assert_eq!(r.symbol, "IBM");
    assert_eq!(r.min.unwrap().to_string(), "$95.00");
    assert_eq!(r.max.unwrap().to_string(), "$110.00");
    assert_eq!(r.price.unwrap().to_string(), "$10.00");
    assert_eq!(r.change_percentage, Some("110.00%".to_string()));
    assert_eq!(r.avg.unwrap().to_string(), "$102.50");
}

#[test]
fn report_of_empty_series() {
    let now: i64 = 1_700_000_000;
    let empty: [u64; 0] = [];
    let r = Report::at(now, now - 3 * 86400 - 5, "X".to_string(), &empty[..]);
    assert_eq!(r.period_length, 3);
    assert!(r.price.is_none());
    assert!(r.change_percentage.is_none());
    assert!(r.min.is_none());
    assert!(r.max.is_none());
    assert!(r.avg.is_none());
}

#[test]
fn report_with_future_start_has_no_average() {
    let now: i64 = 1_700_000_000;
    let r = Report::at(now, now + 86400, "X".to_string(), &[100u64, 200][..]);
    assert_eq!(r.period_length, 0);
    assert!(r.avg.is_none());
    assert_eq!(r.change_percentage, Some("200.00%".to_string()));
}

#[test]
fn report_average_uses_last_window() {
    let now: i64 = 1_700_000_000;
    let series: [u64; 5] = [100, 200, 300, 400, 700];
    let r = Report::at(now, now - 2 * 86400, "X".to_string(), &series[..]);
    assert_eq!(r.avg, Some(DollarValue::new(700)));
    let r = Report::at(now, now - 3 * 86400, "X".to_string(), &series[..]);
    assert_eq!(r.avg, Some(DollarValue::new(550)));
}

#[test]
fn report_new_reads_the_clock() {
    let r = Report::new(0, "X".to_string(), &[100u64, 300][..]);
    assert!(r.period_length > 19000);
    assert_eq!(r.avg, Some(DollarValue::new(200)));
}
