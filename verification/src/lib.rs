//! A verified core for a chat-driven mini-game engine: card primitives,
//! per-variant game state machines, a session registry that keeps every user
//! in at most one live game, and an in-memory economy/inventory bridge.
pub mod cards;
pub mod rng;
pub mod text;
pub mod items;
pub mod userdata;
pub mod store;
pub mod blackjack;
pub mod pvp;
pub mod mine_data;
pub mod mine_battle;
pub mod mining;
pub mod shop;
pub mod sludge;
pub mod slots;
pub mod holdem;
pub mod registry;
