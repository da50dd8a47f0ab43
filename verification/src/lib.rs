//! A verified model of a multi-tenant job-queue and flow-coordination engine.
//!
//! Clients enqueue units of work (scripts, multi-step flows), distributed
//! workers claim and execute them, and results are durably recorded. The
//! modules here hold the state model and the protocols that make enqueueing,
//! claiming, suspending/resuming, canceling and crash-recovering a job
//! correct: the shared transactional store is modeled by [`store::Store`],
//! and every state transition is a verified function over it.

pub mod bytes;
pub mod cancel;
pub mod errors;
pub mod flow;
pub mod hexcodec;
pub mod job;
pub mod laws;
pub mod paths;
pub mod push;
pub mod py_version;
pub mod reaper;
pub mod signature;
pub mod store;
pub mod suspend;
pub mod text;
pub mod urls;
pub mod waiter;
pub mod worker;
