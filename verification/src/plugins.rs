//! What a host of plugin instances offers to the loader of shared modules.

use vstd::prelude::*;
use std::rc::Rc;
use crate::plugin::{Lib, Plugin, PluginCallbacks};

verus! {

/// A host that the module loader tells of plugin types that appear and of
/// modules that go away and come back.
pub trait PluginHandler<C: PluginCallbacks> {
    /// Whether `plugin` is of the kind that this host keeps.
    fn is_correct_plugin_type(&self, plugin: &Plugin<C>) -> bool;

    /// Registers a plugin type.
    fn add_plugin(&mut self, plugin: &Rc<Plugin<C>>);

    /// Forgets the types of the module `lib` and the instances made from them.
    fn unload_plugin(&mut self, lib: &Lib);

    /// Makes again, as far as it can, the instances that the last unloading
    /// took away.
    fn reload_plugin(&mut self);

    /// Told that a module could not be loaded again.
    fn reload_failed(&mut self);
}

} // verus!
