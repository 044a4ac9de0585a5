//! A grant-funding governance engine: DAOs with a treasury, funding proposals
//! with a yes/no vote of one ballot per participant, finalization of the tally
//! and settlement of approved grants.
pub mod errors;
pub mod keys;
pub mod laws;
pub mod ledger;
pub mod state;
