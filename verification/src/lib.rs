//! A low level transactional memory library.
//!
//! This crate holds the verified core of an epoch based software transactional memory (a per
//! object TL2 design): the epoch encoding and the epoch locks protecting every transactional
//! memory location, the read and write logs of a transaction and the commit protocol that runs
//! over them, the garbage bags sealed with epochs, the starvation and backoff policy, the
//! statistics counters, and the hardware transactional memory status codes.

use vstd::prelude::*;

pub mod bloom;
pub mod commit;
pub mod epoch;
pub mod freeze;
pub mod frw_lock;
pub mod fvec;
pub mod gc;
pub mod htm;
pub mod read_log;
pub mod quiesce;
pub mod rw;
pub mod starvation;
pub mod stats;
pub mod tcell;
pub mod tcell_erased;
pub mod tcell_view;
pub mod thread;
pub mod tx;
pub mod usize_aligned;
pub mod write_log;
