//! A small verified library grown out of a collection of Rust studies.
//!
//! The centre is a model of a fixed-size worker pool with a shared FIFO
//! queue and a graceful shutdown protocol. Around it stand a line searcher,
//! the request routing and response formatting of a toy HTTP server, and a
//! few smaller pieces.

pub mod codegen;
pub mod coords;
pub mod http;
pub mod plane;
pub mod pool;
pub mod restaurant;
pub mod search;
pub mod slices;
pub mod text;

pub use restaurant::seat_at_table;
