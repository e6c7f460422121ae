//! A deterministic event-sourcing engine for turn-based battles.
//!
//! Every change to the world goes through an event, which is verified, applied,
//! given an id and recorded in the battle's history.
pub mod battle;
pub mod creature;
pub mod entity;
pub mod entropy;
pub mod error;
pub mod event;
pub mod object;
pub mod round;
pub mod status;
pub mod sink;
pub mod server;
