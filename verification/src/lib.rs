//! The decisions of a TCP meter proxy.
//!
//! The proxy stands between a client and a server, forwards what each sends to
//! the other, and measures latency and throughput on the way:
//!
//! ```text
//! SERVER <=====> (back) PROXY (front) <=====> CLIENT
//! ```
//!
//! Everything the proxy decides or counts is here, as functions on plain
//! values; opening sockets, moving bytes and sharing state between threads is
//! left to the program around it.

pub mod async_fleet_laws;
pub mod async_proxy;
pub mod clock;
pub mod fleet_laws;
pub mod half_laws;
pub mod handle_laws;
pub mod io_error;
pub mod link;
pub mod loop_laws;
pub mod meters;
pub mod pipe;
pub mod pipe_laws;
pub mod proxy;
pub mod sums;
pub mod text;
pub mod transfer;
pub mod transfer_laws;
