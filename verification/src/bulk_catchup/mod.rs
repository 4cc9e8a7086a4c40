//! Bounded historical bulk catchup.

pub mod block_prepare;
pub mod canonical_commit;
pub mod commit_reassembly;
pub mod fact_build;
pub mod flush;
pub mod heap;
pub mod prevout_cache;
pub mod prevout_window;
pub mod run;
pub mod segment_sizer;
pub mod source_fetch;
pub mod watermark;
