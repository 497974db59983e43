//! Per-worker I/O core of a small pipelined HTTP/1.1 server: the completion
//! cookie codec, the per-connection staging lake, the request-line extractor,
//! the response composer, the HTTP date clock and the worker state machine that
//! turns ring completions into ring operations.

pub mod data_lake;
pub mod http;
pub mod nano_clock;
pub mod response;
pub mod server;
pub mod shift;
pub mod table;
pub mod trim;
pub mod user_data;
