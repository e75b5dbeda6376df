//! What a plugin tells of itself.
use vstd::prelude::*;

verus! {

/// A plugin, as the plugin interface sees it.
pub trait Plugin: Send + Sync {
    fn info(&self) -> PluginInfo;
}

/// The name and version of a plugin.
#[derive(Clone, Copy, Debug, PartialEq, Eq)]
pub struct PluginInfo {
    pub name: &'static str,
    pub version: &'static str,
}

} // verus!
