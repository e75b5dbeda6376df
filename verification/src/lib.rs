//! A Minecraft Beta 1.8.1 server core: the wire protocol, item stacks,
//! fluid flow, and the small pieces of game state that the server keeps.
pub mod formatting;
pub mod game;
pub mod item;
pub mod network;
pub mod player_count;
pub mod plugins;
pub mod protocol;
pub mod sleep;
pub mod status_effects;
pub mod translation;
pub mod world;
