//! A fixed-size worker pool: producers submit jobs, a bounded set of
//! long-lived workers drains a shared FIFO channel, and shutdown is a
//! two-phase protocol (signal every worker, then join every worker) that
//! runs every job submitted before disposal began.
//!
//! The pool's coordination logic is modeled and verified here over plain
//! values: a job is identified by the token its producer hands to `execute`,
//! and the channel is a FIFO queue of messages. The surrounding program owns
//! the OS threads and the real blocking channel and drives them by the
//! decisions these functions make.

pub mod channel;
pub mod message;
pub mod pool;
pub mod request;
pub mod schedule;
pub mod worker;
