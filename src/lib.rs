//! Filtering, eligibility and aggregation of child bounties, and the view
//! state that a dashboard panel derives from them.

pub mod bounty;
pub mod filter;
pub mod aggregate;
pub mod search;
pub mod view;
