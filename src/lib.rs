//! Monitoring and ranking logic for a game-state and marketplace bot:
//! mission classification, listing ranking, feed state machines and
//! the riven attribute dictionary.

pub mod text;
mod clock;
pub mod attrs;
pub mod game;
pub mod market;
pub mod monitor;
pub mod query;
pub mod ranking;
pub mod request;
