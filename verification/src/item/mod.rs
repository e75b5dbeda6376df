pub mod block;
pub mod registry;
pub mod stack;
pub mod window;
