use dukascopy::decoder::hour_anchor;
use dukascopy::{build_day_urls, decode_payload, decode_records, DecodeError, Record, UrlInfo, UtcDay};

fn compress(data: &[u8]) -> Vec<u8> {
    let mut input = data;
    let mut out = Vec::new();
    lzma_rs::lzma_compress(&mut input, &mut out).unwrap();
    out
}

fn record_bytes(offset: i32, ask: i32, bid: i32, ask_vol: f32, bid_vol: f32) -> Vec<u8> {
    let mut b = Vec::new();
    b.extend_from_slice(&offset.to_be_bytes());
    b.extend_from_slice(&ask.to_be_bytes());
    b.extend_from_slice(&bid.to_be_bytes());
    b.extend_from_slice(&ask_vol.to_be_bytes());
    b.extend_from_slice(&bid_vol.to_be_bytes());
    b
}

const HOUR_START_2003_01_05: i64 = 1041724800000;

#[test]
fn synthetic_records_decode_field_by_field() {
    let mut data = Vec::new();
    data.extend(record_bytes(0, 104512, 104500, 1.5, 2.25));
    data.extend(record_bytes(1200, 104515, 104501, 0.75, 3.0));
    data.extend(record_bytes(3_599_999, -7, i32::MIN, 0.0, 10.0));
    let recs = decode_records(&data, HOUR_START_2003_01_05).unwrap();
    assert_eq!(recs.len(), 3);
    assert_eq!(
        recs[0],
        Record::new(HOUR_START_2003_01_05, 104512, 104500, 1.5f32.to_bits(), 2.25f32.to_bits())
    );
    assert_eq!(recs[1].ms, HOUR_START_2003_01_05 + 1200);
    assert_eq!(recs[1].ask, 104515);
    assert_eq!(recs[1].bid, 104501);
    assert_eq!(f32::from_bits(recs[1].ask_vol_bits), 0.75);
    assert_eq!(f32::from_bits(recs[1].bid_vol_bits), 3.0);
    assert_eq!(recs[2].ms, HOUR_START_2003_01_05 + 3_599_999);
    assert_eq!(recs[2].ask, -7);
    assert_eq!(recs[2].bid, i32::MIN);
    let scale = 100000.0f32;
    assert_eq!(recs[0].ask as f32 / scale, 104512.0 / scale);
}

#[test]
fn negative_offset_counts_back_from_anchor() {
    let data = record_bytes(-1, 1, 2, 0.0, 0.0);
    let recs = decode_records(&data, 1000).unwrap();
    assert_eq!(recs[0].ms, 999);
}

#[test]
fn empty_buffer_gives_no_records() {
    let recs = decode_records(&Vec::new(), 0).unwrap();
    assert!(recs.is_empty());
}

#[test]
fn partial_record_is_a_decode_failure() {
    let mut data = record_bytes(0, 1, 2, 0.0, 0.0);
    data.push(0);
    assert!(decode_records(&data, 0).is_none());
    data.truncate(19);
    assert!(decode_records(&data, 0).is_none());
}

#[test]
fn hour_anchor_is_exact() {
    let info = UrlInfo {
        symbol: String::from("EURUSD"),
        year: 2003,
        month: 1,
        day: 5,
        hour: 13,
    };
    assert_eq!(hour_anchor(&info), Some(HOUR_START_2003_01_05 + 13 * 3_600_000));
    let bad = UrlInfo {
        symbol: String::from("EURUSD"),
        year: 2003,
        month: 2,
        day: 30,
        hour: 0,
    };
    assert_eq!(hour_anchor(&bad), None);
}

#[test]
fn end_to_end_all_zero_record_lands_on_hour_start() {
    let day = UtcDay::from_ymd(2003, 1, 5).unwrap();
    let urls = build_day_urls("EURUSD", day);
    assert_eq!(urls.len(), 24);
    for (h, url) in urls.iter().enumerate() {
        assert!(url.contains("/EURUSD/2003/00/05/"));
        assert!(url.ends_with(&format!("/{:02}h_ticks.bi5", h)));
    }
    let payload = compress(&[0u8; 20]);
    let (info, recs) = decode_payload(&urls[0], &payload).unwrap();
    assert_eq!((info.year, info.month, info.day, info.hour), (2003, 1, 5, 0));
    assert_eq!(recs.len(), 1);
    assert_eq!(recs[0], Record::new(HOUR_START_2003_01_05, 0, 0, 0, 0));
    let scale = 100000.0f32;
    assert_eq!(recs[0].ask as f32 / scale, 0.0);
    assert_eq!(recs[0].bid as f32 / scale, 0.0);
    assert_eq!(f32::from_bits(recs[0].ask_vol_bits), 0.0);
}

#[test]
fn payload_is_decompressed_before_decoding() {
    let day = UtcDay::from_ymd(2003, 1, 5).unwrap();
    let urls = build_day_urls("EURUSD", day);
    let mut raw = record_bytes(500, 11, 12, 1.0, 2.0);
    raw.extend(record_bytes(900, 13, 14, 3.0, 4.0));
    let (_, recs) = decode_payload(&urls[2], &compress(&raw)).unwrap();
    assert_eq!(recs.len(), 2);
    assert_eq!(recs[1].ms, HOUR_START_2003_01_05 + 2 * 3_600_000 + 900);
    assert_eq!(recs[1].bid, 14);
}

#[test]
fn payload_errors_are_told_apart() {
    let day = UtcDay::from_ymd(2003, 1, 5).unwrap();
    let urls = build_day_urls("EURUSD", day);
    assert_eq!(
        decode_payload("not a locator", &compress(&[0u8; 20])).err(),
        Some(DecodeError::BadLocator)
    );
    assert_eq!(
        decode_payload(
            "http://datafeed.dukascopy.com/datafeed/EURUSD/2003/01/30/00h_ticks.bi5",
            &compress(&[0u8; 20])
        )
        .err(),
        Some(DecodeError::BadDate)
    );
    assert_eq!(
        decode_payload(&urls[0], &vec![1, 2, 3]).err(),
        Some(DecodeError::Decompress)
    );
    assert_eq!(
        decode_payload(&urls[0], &compress(&[0u8; 21])).err(),
        Some(DecodeError::Length)
    );
    assert!(decode_payload(&urls[1], &compress(&[0u8; 40])).is_ok());
}
