//! The binary tick format: after decompression, a flat run of 20-byte
//! big-endian records, each a millisecond offset from the hour's start, the ask
//! and bid prices as scaled integers, and the ask and bid volumes as 32-bit
//! floats.
use vstd::prelude::*;

use crate::calendar::{day_of_civil, UtcDay, EPOCH_DAY, FIRST_DAY, LAST_DAY, MS_PER_DAY, MS_PER_HOUR};
use crate::locator::{decode_url, parse_locator, Descriptor, UrlInfo};

verus! {

/// Bytes in one record.
pub const RECORD_SIZE: usize = 20;

/// The largest distance from the Unix epoch, in milliseconds, of an hour's
/// start that the decoder accepts; hour starts of the years 1 to 9999 lie well
/// inside it.
pub const MAX_ANCHOR_MS: i64 = 4611686018427387904;

/// One tick. `ms` is milliseconds since the Unix epoch; `ask` and `bid` are
/// the prices as the file holds them, before division by the instrument's
/// scale; the volumes are the bit patterns of 32-bit IEEE 754 floats.
#[derive(Clone, Copy, Debug, PartialEq, Eq, Structural)]
pub struct Record {
    pub ms: i64,
    pub ask: i32,
    pub bid: i32,
    pub ask_vol_bits: u32,
    pub bid_vol_bits: u32,
}

impl Record {
    pub fn new(ms: i64, ask: i32, bid: i32, ask_vol_bits: u32, bid_vol_bits: u32) -> (r: Record)
        ensures
            r == (Record { ms, ask, bid, ask_vol_bits, bid_vol_bits }),
    {
        Record { ms, ask, bid, ask_vol_bits, bid_vol_bits }
    }
}

/// The unsigned big-endian integer in the four bytes at `at`.
pub open spec fn be_u32(b: Seq<u8>, at: int) -> int {
    b[at] as int * 16777216 + b[at + 1] as int * 65536 + b[at + 2] as int * 256 + b[at + 3] as int
}

/// The two's complement big-endian integer in the four bytes at `at`.
pub open spec fn be_i32(b: Seq<u8>, at: int) -> int {
    if be_u32(b, at) >= 2147483648 {
        be_u32(b, at) - 4294967296
    } else {
        be_u32(b, at)
    }
}

/// Record `i` of `data`, with its offset counted from `anchor`.
pub open spec fn record_at(rec: Record, data: Seq<u8>, anchor: int, i: int) -> bool {
    let at = 20 * i;
    &&& rec.ms == anchor + be_i32(data, at)
    &&& rec.ask == be_i32(data, at + 4)
    &&& rec.bid == be_i32(data, at + 8)
    &&& rec.ask_vol_bits == be_u32(data, at + 12)
    &&& rec.bid_vol_bits == be_u32(data, at + 16)
}

/// `recs` holds one record for each 20 bytes of `data`, in order.
pub open spec fn records_of(recs: Seq<Record>, data: Seq<u8>, anchor: int) -> bool {
    &&& recs.len() * 20 == data.len()
    &&& forall|i: int| 0 <= i < recs.len() ==> record_at(#[trigger] recs[i], data, anchor, i)
}

fn read_u32_be(data: &Vec<u8>, at: usize) -> (r: u32)
    requires
        at + 4 <= data@.len() <= usize::MAX,
    ensures
        r == be_u32(data@, at as int),
{
    (data[at] as u32) * 16777216 + (data[at + 1] as u32) * 65536 + (data[at + 2] as u32) * 256
        + (data[at + 3] as u32)
}

fn read_i32_be(data: &Vec<u8>, at: usize) -> (r: i32)
    requires
        at + 4 <= data@.len() <= usize::MAX,
    ensures
        r == be_i32(data@, at as int),
{
    let u = read_u32_be(data, at);
    if u >= 2147483648 {
        (u as i64 - 4294967296) as i32
    } else {
        u as i32
    }
}

/// Decodes a decompressed buffer into its records, with offsets counted from
/// `anchor_ms`; `None` where the length is not a whole multiple of 20 bytes.
pub fn decode_records(data: &Vec<u8>, anchor_ms: i64) -> (r: Option<Vec<Record>>)
    requires
        -MAX_ANCHOR_MS <= anchor_ms <= MAX_ANCHOR_MS,
    ensures
        r is None <==> data@.len() % 20 != 0,
        r is Some ==> records_of(r->0@, data@, anchor_ms as int),
{
    let n = data.len();
    if n % RECORD_SIZE != 0 {
        return None;
    }
    let count = n / RECORD_SIZE;
    let mut recs: Vec<Record> = Vec::new();
    let mut i: usize = 0;
    while i < count
        invariant
            n == data@.len(),
            count * 20 == n,
            i <= count,
            recs@.len() == i,
            -MAX_ANCHOR_MS <= anchor_ms <= MAX_ANCHOR_MS,
            forall|k: int| 0 <= k < i ==> record_at(#[trigger] recs@[k], data@, anchor_ms as int, k),
        decreases count - i,
    {
        let at = i * RECORD_SIZE;
        let offset = read_i32_be(data, at);
        let ask = read_i32_be(data, at + 4);
        let bid = read_i32_be(data, at + 8);
        let ask_vol_bits = read_u32_be(data, at + 12);
        let bid_vol_bits = read_u32_be(data, at + 16);
        recs.push(Record::new(anchor_ms + offset as i64, ask, bid, ask_vol_bits, bid_vol_bits));
        i = i + 1;
    }
    Some(recs)
}

/// Milliseconds since the Unix epoch at the start of a descriptor's hour, if its
/// date exists between 0001-01-01 and 9999-12-31.
pub open spec fn anchor_of(v: Descriptor) -> Option<int> {
    match day_of_civil(v.year, v.month, v.day) {
        Some(n) => if FIRST_DAY <= n <= LAST_DAY {
            Some((n - EPOCH_DAY) * MS_PER_DAY + v.hour * MS_PER_HOUR)
        } else {
            None
        },
        None => None,
    }
}

/// The start of a descriptor's hour, in milliseconds since the Unix epoch.
pub fn hour_anchor(info: &UrlInfo) -> (r: Option<i64>)
    requires
        info.hour < 24,
    ensures
        r is Some <==> anchor_of(info@) is Some,
        r is Some ==> r->0 == anchor_of(info@)->0,
        r is Some ==> -MAX_ANCHOR_MS <= r->0 <= MAX_ANCHOR_MS,
{
    match UtcDay::from_ymd(info.year, info.month, info.day) {
        Some(day) => Some(
            (day.day_number() as i64 - EPOCH_DAY) * MS_PER_DAY + info.hour as i64 * MS_PER_HOUR,
        ),
        None => None,
    }
}

#[verifier::external_type_specification]
#[verifier::external_body]
pub struct ExLzmaError(lzma_rs::error::Error);

/// The bytes that LZMA decompression makes of a buffer, or `None` where the
/// buffer is no valid LZMA stream.
pub uninterp spec fn lzma_unpacked(b: Seq<u8>) -> Option<Seq<u8>>;

/// Relies on `lzma_rs::lzma_decompress` with default options: it reads the
/// header and stream from the input and writes the decompressed bytes to the
/// output, which depends on the input alone, or fails.
#[verifier::external_body]
fn lzma_unpack(data: &Vec<u8>) -> (r: Result<Vec<u8>, lzma_rs::error::Error>)
    ensures
        r is Ok <==> lzma_unpacked(data@) is Some,
        r is Ok ==> r->Ok_0@ == lzma_unpacked(data@)->0,
{
    let mut input: &[u8] = data.as_slice();
    let mut out: Vec<u8> = Vec::new();
    match lzma_rs::lzma_decompress(&mut input, &mut out) {
        Ok(()) => Ok(out),
        Err(e) => Err(e),
    }
}

/// Why one hour's payload gave no records.
#[derive(Clone, Copy, Debug, PartialEq, Eq, Structural)]
pub enum DecodeError {
    /// The locator is not that of a well-formed descriptor.
    BadLocator,
    /// The locator names a date that does not exist.
    BadDate,
    /// The payload is no valid compressed stream.
    Decompress,
    /// The decompressed length is not a whole multiple of 20 bytes.
    Length,
}

pub open spec fn fails_with(r: Result<(UrlInfo, Vec<Record>), DecodeError>, e: DecodeError) -> bool {
    r is Err && r->Err_0 == e
}

/// What decoding the payload fetched from `url` gives.
pub open spec fn payload_outcome(
    url: Seq<char>,
    compressed: Seq<u8>,
    r: Result<(UrlInfo, Vec<Record>), DecodeError>,
) -> bool {
    match parse_locator(url) {
        None => fails_with(r, DecodeError::BadLocator),
        Some(v) => match anchor_of(v) {
            None => fails_with(r, DecodeError::BadDate),
            Some(a) => match lzma_unpacked(compressed) {
                None => fails_with(r, DecodeError::Decompress),
                Some(data) => if data.len() % 20 != 0 {
                    fails_with(r, DecodeError::Length)
                } else {
                    &&& r is Ok
                    &&& r->Ok_0.0@ == v
                    &&& records_of(r->Ok_0.1@, data, a)
                },
            },
        },
    }
}

/// Decodes the payload fetched from `url`: the descriptor read back from the
/// locator gives the hour's start, the payload is decompressed and cut into
/// records. A failure concerns this payload alone.
pub fn decode_payload(url: &str, compressed: &Vec<u8>) -> (r: Result<
    (UrlInfo, Vec<Record>),
    DecodeError,
>)
    ensures
        payload_outcome(url@, compressed@, r),
{
    let info = match decode_url(url) {
        Some(info) => info,
        None => return Err(DecodeError::BadLocator),
    };
    let anchor = match hour_anchor(&info) {
        Some(a) => a,
        None => return Err(DecodeError::BadDate),
    };
    let data = match lzma_unpack(compressed) {
        Ok(d) => d,
        Err(_) => return Err(DecodeError::Decompress),
    };
    match decode_records(&data, anchor) {
        Some(recs) => Ok((info, recs)),
        None => Err(DecodeError::Length),
    }
}

} // verus!
