use dukascopy::locator::locator_string;
use dukascopy::{build_day_urls, build_urls, decode_url, file_name, UrlInfo, UtcDay};

#[test]
fn test_day_urls() {
    let dt = UtcDay::from_ymd(2003, 1, 5).unwrap();
    let v = build_day_urls("eurusd", dt);
    assert!(v.len() == 24);
    assert_eq!(
        v[0],
        "http://datafeed.dukascopy.com/datafeed/EURUSD/2003/00/05/00h_ticks.bi5"
    );
    assert_eq!(
        v.last().unwrap(),
        "http://datafeed.dukascopy.com/datafeed/EURUSD/2003/00/05/23h_ticks.bi5"
    );
}

#[test]
fn test_days() {
    let start = UtcDay::from_ymd(2003, 1, 5).unwrap();
    let end = UtcDay::from_ymd(2003, 1, 30).unwrap();
    let v = build_urls("eurusd", start, end);
    assert!(v.len() == 600);
    assert_eq!(
        v[0],
        "http://datafeed.dukascopy.com/datafeed/EURUSD/2003/00/05/00h_ticks.bi5"
    );
    assert_eq!(
        v.last().unwrap(),
        "http://datafeed.dukascopy.com/datafeed/EURUSD/2003/00/29/23h_ticks.bi5"
    );
}

#[test]
fn test_url_info() {
    let dt = UtcDay::from_ymd(2003, 1, 5).unwrap();
    let urls = build_day_urls("eurusd", dt);
    for i in 0..24 {
        let info = decode_url(&urls[i]).unwrap();
        assert!(info.symbol == "EURUSD");
        assert!(info.year == 2003);
        assert!(info.month == 1);
        assert!(info.day == 5);
        assert!(info.hour == i as u32);
    }
}

#[test]
fn range_of_one_day_has_24_hours_in_order() {
    let start = UtcDay::from_ymd(2003, 1, 5).unwrap();
    let end = UtcDay::from_ymd(2003, 1, 6).unwrap();
    let v = build_urls("EURUSD", start, end);
    assert_eq!(v.len(), 24);
    for (h, url) in v.iter().enumerate() {
        let expected = format!(
            "http://datafeed.dukascopy.com/datafeed/EURUSD/2003/00/05/{:02}h_ticks.bi5",
            h
        );
        assert_eq!(url, &expected);
    }
}

#[test]
fn empty_or_reversed_range_has_no_locators() {
    let a = UtcDay::from_ymd(2003, 1, 5).unwrap();
    let b = UtcDay::from_ymd(2003, 1, 4).unwrap();
    assert!(build_urls("EURUSD", a, a).is_empty());
    assert!(build_urls("EURUSD", a, b).is_empty());
}

#[test]
fn range_across_year_end_counts_days_and_keeps_order() {
    let start = UtcDay::from_ymd(2003, 12, 31).unwrap();
    let end = UtcDay::from_ymd(2004, 1, 2).unwrap();
    let v = build_urls("gbpusd", start, end);
    assert_eq!(v.len(), 48);
    assert_eq!(
        v[0],
        "http://datafeed.dukascopy.com/datafeed/GBPUSD/2003/11/31/00h_ticks.bi5"
    );
    assert_eq!(
        v[24],
        "http://datafeed.dukascopy.com/datafeed/GBPUSD/2004/00/01/00h_ticks.bi5"
    );
    let mut sorted = v.clone();
    sorted.sort();
    assert_eq!(sorted, v);
}

#[test]
fn range_over_leap_day() {
    let start = UtcDay::from_ymd(2004, 2, 28).unwrap();
    let end = UtcDay::from_ymd(2004, 3, 1).unwrap();
    let v = build_urls("EURUSD", start, end);
    assert_eq!(v.len(), 48);
    assert_eq!(
        v[47],
        "http://datafeed.dukascopy.com/datafeed/EURUSD/2004/01/29/23h_ticks.bi5"
    );
}

#[test]
fn every_built_locator_reads_back() {
    let start = UtcDay::from_ymd(2010, 12, 30).unwrap();
    let end = UtcDay::from_ymd(2011, 1, 2).unwrap();
    let v = build_urls("usdjpy", start, end);
    assert_eq!(v.len(), 72);
    for (i, url) in v.iter().enumerate() {
        let info = decode_url(url).unwrap();
        assert_eq!(info.symbol, "USDJPY");
        assert_eq!(info.hour as usize, i % 24);
        assert_eq!(locator_string(&info), *url);
    }
    let last = decode_url(&v[71]).unwrap();
    assert_eq!((last.year, last.month, last.day), (2011, 1, 1));
}

#[test]
fn malformed_locators_are_rejected() {
    let good = "http://datafeed.dukascopy.com/datafeed/EURUSD/2003/00/05/00h_ticks.bi5";
    assert!(decode_url(good).is_some());
    assert!(decode_url("").is_none());
    assert!(decode_url("http://datafeed.dukascopy.com/datafeed/EURUSD/2003/12/05/00h_ticks.bi5").is_none());
    assert!(decode_url("http://datafeed.dukascopy.com/datafeed/EURUSD/2003/00/05/24h_ticks.bi5").is_none());
    assert!(decode_url("http://datafeed.dukascopy.com/datafeed/EURUSD/2003/00/00/00h_ticks.bi5").is_none());
    assert!(decode_url("http://datafeed.dukascopy.com/datafeed/EURUSD/2003/0/05/00h_ticks.bi5").is_none());
    assert!(decode_url("http://datafeed.dukascopy.com/datafeed/EURUSD/02003/00/05/00h_ticks.bi5").is_none());
    assert!(decode_url("http://datafeed.dukascopy.com/datafeed//2003/00/05/00h_ticks.bi5").is_none());
    assert!(decode_url("http://datafeed.dukascopy.com/datafeed/EURUSD/2003/00/05/00h_ticks.bi").is_none());
    assert!(decode_url("https://datafeed.dukascopy.com/datafeed/EURUSD/2003/00/05/00h_ticks.bi5").is_none());
}

#[test]
fn file_names_pad_fields_and_use_calendar_month() {
    let info = UrlInfo {
        symbol: String::from("EURUSD"),
        year: 2003,
        month: 1,
        day: 5,
        hour: 7,
    };
    assert_eq!(file_name(&info), "EURUSD_2003_01_05_07h_ticks.bi5");
    let later = UrlInfo {
        symbol: String::from("EURUSD"),
        year: 2003,
        month: 10,
        day: 5,
        hour: 0,
    };
    assert!(file_name(&info) < file_name(&later));
}

#[test]
fn calendar_days_convert_both_ways() {
    let d = UtcDay::from_ymd(1970, 1, 1).unwrap();
    assert_eq!(d.day_number(), 719163);
    assert_eq!(d.start_millis(), 0);
    assert_eq!(UtcDay::from_ymd(2003, 1, 5).unwrap().ymd(), (2003, 1, 5));
    assert!(UtcDay::from_ymd(2003, 2, 29).is_none());
    assert!(UtcDay::from_ymd(2003, 13, 1).is_none());
    assert!(UtcDay::from_ymd(10000, 1, 1).is_none());
    assert!(UtcDay::from_number(0).is_none());
    assert_eq!(UtcDay::from_number(1).unwrap().ymd(), (1, 1, 1));
    assert_eq!(UtcDay::from_number(3652059).unwrap().ymd(), (9999, 12, 31));
    assert!(UtcDay::from_number(3652060).is_none());
}
