//! Decisions of a small price-sampling tool: which command a command line
//! selects, how many samples a run collects, when sampling is complete, and
//! what the reader of the result file shows.

pub mod cli;
pub mod decimal;
pub mod reader;
pub mod record;
pub mod sampler;
pub mod text;
