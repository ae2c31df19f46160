//! Positions, realised and unrealised profit, and the account-wide risk state.
pub mod pnl;
pub mod laws;
pub mod closed_book;
pub mod allocations;
pub mod position;
pub mod risk_state;
pub mod registry;
pub mod engine;
pub mod outcome_laws;
pub mod feed;
