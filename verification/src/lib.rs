pub mod pool;
pub mod queue;
pub mod task;
pub mod worker;
