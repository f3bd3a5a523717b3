//! A fixed-size worker thread pool: jobs are submitted as single-use
//! runnables, dispatched over a FIFO queue to a bounded set of workers,
//! and shut down by a blocking protocol that terminates every worker.
//!
//! This crate holds the verified core: the pool's dispatch protocol
//! (queue, worker states, submission and shutdown) and the request/response
//! helpers that the surrounding server uses. The operating-system side
//! (real threads, sockets, files) lives outside and drives these functions.

pub mod http;
pub mod pool;
