//! A proportional-share CPU scheduling simulator.
//!
//! Two schedulers select which job runs next so that, over many selections,
//! each job receives CPU time in proportion to its ticket count:
//!
//! - [`lottery`]: draws a uniformly random winning ticket per selection;
//!   fairness is statistical, and selection keeps no per-job state.
//! - [`stride`]: deterministic virtual-time accounting; every job carries a
//!   `pass` counter that advances by its `stride` when it runs, and the job
//!   with the smallest pass always runs next.
//!
//! [`proc_table`] holds a small process-table model in the style of xv6, and
//! [`timing`] a wall-clock busy-wait used by simulation drivers.

pub mod errors;
pub mod lottery;
pub mod proc_table;
pub mod stride;
pub mod timing;
