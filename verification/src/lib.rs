//! A fixed-size worker pool, verified at the level of its dispatch
//! protocol: pool construction, job submission, FIFO delivery to
//! workers, and coordinated shutdown.

pub mod pool;
pub mod worker;
