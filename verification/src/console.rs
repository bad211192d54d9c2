//! The command line of the ingester, as plain values.

use vstd::prelude::*;

verus! {

/// The options the ingester accepts on its command line. Each is `None` when
/// the user did not pass it.
#[derive(Debug)]
pub struct Cli {
    /// ClickHouse HTTP URL (`-c`, `--clickhouse-url`).
    pub clickhouse_url: Option<String>,
    /// ClickHouse database (`--db`).
    pub clickhouse_db: Option<String>,
    /// ClickHouse table (`--table`).
    pub clickhouse_table: Option<String>,
    /// ClickHouse user (`--user`).
    pub clickhouse_user: Option<String>,
    /// ClickHouse password (`--password`).
    pub clickhouse_password: Option<String>,
    /// Batch size (`-b`, `--batch-size`).
    pub batch_size: Option<usize>,
    /// Flush interval in seconds (`--flush-interval`).
    pub flush_interval_secs: Option<u64>,
    /// Input file (`-i`, `--input-file`).
    pub input_file: Option<String>,
    /// Config file path (`-f`, `--config`).
    pub config_file: Option<String>,
}

} // verus!
