//! A queue of items that become available once their timeouts have expired.
//!
//! Items are held in a deadline heap ordered by absolute expiry time, and the
//! queue keeps a single wake-up timer aimed at the earliest pending deadline.
pub mod clock;
pub mod deadline;
pub mod queue;
pub mod wakeup;

pub use queue::TimeoutQueue;
