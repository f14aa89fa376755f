//! Verified core of a small HTTP load-testing tool: request preparation,
//! attack scheduling, execution bookkeeping and the text encodings of
//! results and log records.

pub mod cli;
pub mod config;
pub mod engine;
pub mod goku;
pub mod goku_data_io;
pub mod text;
