//! Fund valuation lookup: building the request addresses, unwrapping the
//! JSONP replies of the valuation service, merging search hits with their
//! valuations, and laying out the table that the command line prints.
pub mod config;
pub mod fund;
pub mod text;
pub mod ui;

use vstd::prelude::*;

verus! {

} // verus!
