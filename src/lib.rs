//! A small HTTP/1.x server core: an incremental request reader with
//! backpressure-aware buffering, and an ordering gate that writes pipelined
//! responses back in the order their requests arrived.

mod buffer;
mod connection;
mod date;
mod encode;
mod response;
mod sequencer;
mod service;

pub use buffer::{bytes_of, capacity_of, head_status_of, HeadStatus};
pub use connection::{
    fed, feed_all, flatten, lemma_chunked_reads_match_one_read, Decoded, Request, RequestReader,
};
pub use date::{date_text, http_date, month_name, padded, weekday_name, HttpDate};
pub use encode::{decimal, encode, encoded, header_lines, reply_bytes, status_block};
pub use response::{describes, internal_error_rsp, response_for, service_error_rsp, Response};
pub use sequencer::{
    concat_range, lemma_all_complete_wire_is_arrival_order, lemma_wire_is_whole_responses,
    ResponseSequencer,
};
pub use service::{HttpPipelineServer, HttpServer, HttpService};
