//! The decision logic of a coinswap maker: which funding proofs and contract
//! transactions it accepts, when it gives a taker connection up, and how it
//! then claims its coins back.

pub mod connections;
pub mod contract_broadcast;
pub mod contract_broadcast_course;
pub mod contract_broadcast_laws;
pub mod contract_broadcast_timetable;
pub mod error;
pub mod funding;
pub mod funding_laws;
pub mod idle;
pub mod keys;
pub mod maker;
pub mod messages;
pub mod signing;
pub mod signing_cache_laws;
pub mod signing_laws;
pub mod swap_laws;
pub mod transaction;
