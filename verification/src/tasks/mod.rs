//! The tasks that the steps run.

pub mod bucket;
pub mod casting;
pub mod craft;
pub mod food;
pub mod gather_wood;
pub mod log_search;
pub mod mining;
pub mod portal;
pub mod report;
pub mod smelt;
