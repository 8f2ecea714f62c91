pub mod names;
pub mod dns;
pub mod textparse;
pub mod config;
pub mod plugins;
pub mod handler;
