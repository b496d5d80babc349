//! Game rules of a hex-map strategy game: map geometry, terrain generation
//! decisions, rivers, units, turns, players and the multiplayer protocol.
pub mod hex;
pub mod civilization;
pub mod random;
pub mod terrain;
pub mod river;
pub mod unit;
pub mod movement;
pub mod action;
pub mod layer;
pub mod id_set;
pub mod selection;
pub mod board;
pub mod state;
pub mod peer;
pub mod player;
pub mod turn;
pub mod start;
pub mod game_setup;
