//! Configuration of the record-table server: a port, upstream servers and
//! local records keyed by domain name.
use vstd::prelude::*;

verus! {

/// Top-level configuration of the record-table server.
#[derive(Debug)]
pub struct Config {
    /// UDP port to listen on.
    pub port: i32,
    /// Upstream servers, as `address:port` texts.
    pub upstream_servers: Vec<String>,
    /// Local records, by domain name; no domain name occurs twice.
    pub records: Vec<(String, RecordConfig)>,
}

/// One local record: its type mnemonic and its value.
#[derive(Debug)]
pub struct RecordConfig {
    /// Record type mnemonic, such as `A` or `CNAME` (any case).
    pub record_type: String,
    /// Record value: an IPv4 address for `A`, a domain name for `CNAME`.
    pub value: String,
}

} // verus!
