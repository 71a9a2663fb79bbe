//! A small cooperative task scheduler: tasks are driven by polling, rescheduled
//! onto one of two queues when woken, and counted until all have completed.
pub mod delay;
pub mod executor;
