//! A pool of long-lived workers that take units of work from one shared
//! first-in first-out queue.
//!
//! The library holds the pool's logic: the dispatch queue, what a worker does
//! with each message it takes, and the bookkeeping of the pool's workers when
//! it is built, resized and torn down. Running threads and blocking on the
//! queue is left to the caller, who hands the library plain values.
pub mod queue;
pub mod worker;
pub mod pool;
