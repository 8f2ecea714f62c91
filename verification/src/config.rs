//! Configuration: the command line, the record-table configuration and the
//! plugin-pipeline configuration.
pub mod cli;
pub mod config;
pub mod new_config;
