//! What the server asks of its plugins.
use vstd::prelude::*;

use crate::item::registry::ItemRegistry;

pub mod api;

verus! {

/// A plugin of the server.
pub trait Plugin: Send + Sync {
    fn name(&self) -> &'static str;

    fn on_unload(&self) {
    }

    /// Lets the plugin register its items and blocks.
    fn register_items(&self, _item_registry: &mut ItemRegistry) {
    }
}

} // verus!
