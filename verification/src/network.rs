//! Connections and what players send: the handshake, chat, entity actions,
//! entity ids and metadata, and packets built field by field.
pub mod builder;
pub mod chat;
pub mod creative;
pub mod entity_action;
pub mod handshake;
pub mod ids;
pub mod interaction;
pub mod metadata;
