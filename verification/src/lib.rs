//! FlashCron: the scheduling, configuration and bookkeeping logic of a cron
//! daemon, with contracts proved by Verus.

pub mod api;
pub mod clock;
pub mod cmd;
pub mod config;
pub mod error;
pub mod executor;
pub mod history;
pub mod scheduler;
pub mod text;

use vstd::prelude::*;

pub use crate::config::Config;
pub use crate::error::Error;
pub use crate::executor::JobExecutor;
pub use crate::scheduler::engine::Scheduler;

verus! {

/// Library version
pub const VERSION: &'static str = "0.1.0";

} // verus!
