//! Plugin types: what a shared module registers with a host.

use vstd::prelude::*;
use crate::plugin_io::{LoadState, SaveState};
use crate::read_write::{Reader, Writer};

verus! {

/// `minifb::Menu`, a menu of the windowing crate. The host hands a menu on
/// as the plugin built it and never looks into it.
#[verifier::external_type_specification]
#[verifier::external_body]
pub struct ExMenu(minifb::Menu);

/// Stands for one loaded shared module. Two plugin types come from the same
/// module exactly if their handles are equal.
#[derive(PartialEq, Eq, Clone, Copy, Debug, Structural)]
pub struct Lib(pub usize);

/// Which of the optional operations a plugin type offers. The host leaves out
/// a call whose flag is not set.
#[derive(PartialEq, Eq, Clone, Copy, Debug, Structural)]
pub struct Capabilities {
    pub create_instance: bool,
    pub update: bool,
    pub save_state: bool,
    pub load_state: bool,
    pub register_menu: bool,
}

/// The operations of a plugin type, as its module implements them. The host
/// keeps an instance's state without ever looking into it, and reaches it
/// through these operations only.
///
/// Nothing is promised of what an operation returns or does to the state, to
/// a writer or to a loader: the host's contracts hold whatever it is.
pub trait PluginCallbacks {
    /// The state of one instance, owned by the plugin. The host gives an
    /// instance up by dropping its state.
    type Instance;

    /// Makes the state of a new instance, or `None` if it cannot.
    fn create_instance(&self) -> Option<Self::Instance>;

    /// Lets the instance work for one tick: it may read the events of the
    /// previous tick from `reader` and write events for the next to `writer`.
    fn update(&self, instance: &mut Self::Instance, reader: &Reader, writer: &mut Writer);

    /// Writes the instance's state to `writer`, which the host hands over
    /// empty.
    fn save_state(&self, instance: &Self::Instance, writer: &mut SaveState)
        requires
            old(writer)@ == Seq::<Seq<char>>::empty(),
    ;

    /// Takes the instance's state from `loader`, which the host hands over
    /// placed before the first string of the saved state.
    fn load_state(&self, instance: &mut Self::Instance, loader: &mut LoadState)
        requires
            old(loader)@.next == 0,
    ;

    /// Builds the instance's menu. The identifiers of its items start at
    /// `menu_id_offset`, so that menus of several instances do not collide.
    /// `None` if the instance has no menu.
    fn register_menu(&self, instance: &mut Self::Instance, menu_id_offset: u32) -> Option<
        Box<minifb::Menu>,
    >;
}

/// A plugin type: its name, the kind of plugin it is, the module it comes
/// from and its operations.
pub struct Plugin<C: PluginCallbacks> {
    pub name: String,
    pub category: String,
    pub lib: Lib,
    pub caps: Capabilities,
    pub plugin_funcs: C,
}

/// The identifier under which a menu item is known outside its menu: the
/// identifier `id` that the plugin gave it, moved up by the offset of the
/// instance's menu. The sum wraps round where it does not fit.
pub fn menu_item_id(menu_id_offset: u32, id: u32) -> (shifted: u32)
    ensures
        shifted == (if id + menu_id_offset <= u32::MAX {
            id + menu_id_offset
        } else {
            id + menu_id_offset - 0x1_0000_0000
        }),
{
    if id <= u32::MAX - menu_id_offset {
        id + menu_id_offset
    } else {
        id - (u32::MAX - menu_id_offset) - 1
    }
}

/// Whether `made` is an answer that the create operation of `funcs` can
/// give: the state of a new instance, or `None`.
pub open spec fn creates<C: PluginCallbacks>(funcs: C, made: Option<C::Instance>) -> bool {
    call_ensures(C::create_instance, (&funcs,), made)
}

/// Whether `needle` occurs in `haystack` as a run of consecutive characters.
pub open spec fn occurs_in(needle: Seq<char>, haystack: Seq<char>) -> bool {
    exists|i: int|
        0 <= i && i + needle.len() <= haystack.len() && #[trigger] haystack.subrange(
            i,
            i + needle.len(),
        ) == needle
}

/// `str::contains` with a string as the pattern: whether the pattern matches
/// a part of the string.
#[verifier::external_body]
pub(crate) fn str_contains(haystack: &str, needle: &str) -> (found: bool)
    ensures
        found == occurs_in(needle@, haystack@),
{
    haystack.contains(needle)
}

} // verus!
