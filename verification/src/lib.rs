//! A two-player, simultaneous-move fruit collecting game on a square grid,
//! together with the driver that plays whole matches and records them.
//!
//! Fractional quantities are held as integers counted in thousandths: a
//! player's holdings, the rewards of a round, the fruit density of a board and
//! the shares of the three fruit kinds.
pub mod units;
pub mod position;
pub mod random;
pub mod fruit;
pub mod grid;
pub mod board;
pub mod player;
pub mod state;
pub mod engine;
pub mod config;
pub mod setup;
pub mod features;
pub mod ai;
pub mod manager;
pub mod worker;
