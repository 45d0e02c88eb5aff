//! Extraction engine of a web-fetch service: classifies documentation-page
//! URLs, turns search-result markup into records and document markup into
//! a flattened text block, and decides what each operation returns.

pub mod text;
pub mod classify;
pub mod search;
pub mod page;
pub mod dispatch;
