pub mod cursor;
pub mod io;
pub mod packets;
pub mod client;
pub mod server;
pub mod codec;
pub mod chunk_data;
