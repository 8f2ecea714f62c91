//! Command-line options.
use vstd::prelude::*;

verus! {

/// A simple asynchronous DNS server: its command-line options.
#[derive(Debug)]
pub struct Cli {
    /// Path of the configuration file (default `config.toml`).
    pub config_file: String,
}

} // verus!
