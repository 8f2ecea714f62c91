//! Request handling: the plugin pipeline, and the record-table server.
pub mod pipline_handler;
pub mod request_handler;
