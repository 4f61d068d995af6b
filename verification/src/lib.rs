//! A paced, staged crawler for a paginated image-listing site.
//!
//! The crate owns the crawl state machine ([`chive::Chiver`]), the pacing
//! scheduler ([`scheduler::PhotoScheduler`]), and the page parsers
//! ([`parser`]).  Network fetches are performed by the caller, which drives
//! the state machine one paced step at a time and hands each fetch result
//! back as an event.
use vstd::prelude::*;

pub mod chive;
pub mod parser;
pub mod scheduler;
pub mod scrape;
pub mod text;
pub mod utils;

verus! {

/// One outcome of a paced crawl step: a coarse progress milestone, a
/// terminal error message, or a completed image payload with its source URL.
#[derive(Debug, Clone)]
pub enum Download {
    Progress(u32),
    Error(String),
    Done(Vec<u8>, String),
}

} // verus!
