//! Funds: what the valuation service says of a fund, how a search is merged
//! with the valuations, and the envelope the service answers in.
pub mod fetch;
pub mod jsonp;
pub mod model;

pub use fetch::App;
pub use model::Fund;
