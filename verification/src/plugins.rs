//! The plugins that a request passes through, and the table of records that
//! the answering plugins look names up in.
pub mod arbitrary;
pub mod blackhole;
pub mod cache;
pub mod client_limiter;
pub mod entry_cache;
pub mod fast_forward;
pub mod hosts;
pub mod plugin;
pub mod table;
