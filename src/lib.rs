//! Download-and-decode pipeline for hourly tick files: the per-hour resource
//! locators of a date range, the decoder of the fixed-width binary tick format,
//! the retry bookkeeping of a download run and the handling of instrument
//! metadata.

pub mod calendar;
pub mod decoder;
pub mod locator;
pub mod meta;
pub mod orchestrator;
pub mod text;

pub use calendar::UtcDay;
pub use decoder::{decode_payload, decode_records, DecodeError, Record};
pub use locator::{build_day_urls, build_urls, decode_url, file_name, UrlInfo};
pub use orchestrator::{classify, Disposition, Outcome, Retrier};
