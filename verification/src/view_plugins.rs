//! The host of view plugins, as far as a session needs it: the registered
//! view types and the instances made from them.

use vstd::prelude::*;
use std::rc::Rc;
use crate::plugin::{creates, Plugin, PluginCallbacks};
use crate::seq_facts::{first_index, lemma_first_index_is};

verus! {

/// Names one view instance for the lifetime of its host.
#[derive(PartialEq, Eq, Clone, Copy, Debug, Structural)]
pub struct ViewHandle(pub u64);

/// One view instance: the plugin's own state, the handle under which the
/// host knows it, and its type.
pub struct ViewInstance<C: PluginCallbacks> {
    pub plugin_data: C::Instance,
    pub handle: ViewHandle,
    pub plugin_type: Rc<Plugin<C>>,
}

/// The host of view plugins.
pub struct ViewPlugins<C: PluginCallbacks> {
    pub instances: Vec<ViewInstance<C>>,
    plugin_types: Vec<Rc<Plugin<C>>>,
    handle_counter: ViewHandle,
}

/// What a [`ViewPlugins`] stands for in contracts.
pub struct ViewHostState<C: PluginCallbacks> {
    /// The live instances, in the order in which they were made.
    pub instances: Seq<ViewInstance<C>>,
    /// The registered types, in the order of their registration.
    pub types: Seq<Rc<Plugin<C>>>,
    /// The number of the next handle. Every handle below it has been issued.
    pub next_handle: u64,
}

/// Holds of the view types registered under `name`.
pub open spec fn view_named<C: PluginCallbacks>(name: Seq<char>) -> spec_fn(Rc<Plugin<C>>) -> bool {
    |t: Rc<Plugin<C>>| t.name@ == name
}

/// Holds of the view instances with the handle `handle`.
pub open spec fn view_with_handle<C: PluginCallbacks>(handle: ViewHandle) -> spec_fn(
    ViewInstance<C>,
) -> bool {
    |v: ViewInstance<C>| v.handle == handle
}

impl<C: PluginCallbacks> ViewHostState<C> {
    /// The index of the first type registered under `name`, or the number of
    /// types if there is none.
    pub open spec fn type_named(self, name: Seq<char>) -> int {
        first_index(self.types, view_named(name))
    }

    /// The index of the first instance with the handle `handle`, or the number
    /// of instances if there is none.
    pub open spec fn position(self, handle: ViewHandle) -> int {
        first_index(self.instances, view_with_handle(handle))
    }

    /// Whether an instance with the handle `handle` is alive.
    pub open spec fn has_view(self, handle: ViewHandle) -> bool {
        self.position(handle) < self.instances.len()
    }

    /// Whether an instance of the type at `index` can be made, as far as the
    /// host decides: the type exists, can make instances, and a handle is left.
    pub open spec fn can_create(self, index: int) -> bool {
        &&& 0 <= index < self.types.len()
        &&& self.types[index].caps.create_instance
        &&& self.next_handle < u64::MAX
    }

    /// The host after it has taken in a new instance of the type at `index`,
    /// whose state is `plugin_data`.
    pub open spec fn add_instance(self, index: int, plugin_data: C::Instance) -> Self {
        ViewHostState {
            instances: self.instances.push(
                ViewInstance {
                    plugin_data,
                    handle: ViewHandle(self.next_handle),
                    plugin_type: self.types[index],
                },
            ),
            next_handle: (self.next_handle + 1) as u64,
            ..self
        }
    }

    /// Whether `after` has the same types and the same instances as this
    /// host, but for what the plugins did to their own state.
    pub open spec fn same_views(self, after: Self) -> bool {
        &&& after.types == self.types
        &&& after.next_handle == self.next_handle
        &&& after.instances.len() == self.instances.len()
        &&& forall|i: int|
            0 <= i < self.instances.len() ==> (#[trigger] after.instances[i]).handle
                == self.instances[i].handle && after.instances[i].plugin_type
                == self.instances[i].plugin_type
    }
}

impl<C: PluginCallbacks> View for ViewPlugins<C> {
    type V = ViewHostState<C>;

    closed spec fn view(&self) -> ViewHostState<C> {
        ViewHostState {
            instances: self.instances@,
            types: self.plugin_types@,
            next_handle: self.handle_counter.0,
        }
    }
}

impl<C: PluginCallbacks> ViewPlugins<C> {
    /// A host without types and instances, whose first handle will be 0.
    pub fn new() -> (host: ViewPlugins<C>)
        ensures
            host@ == (ViewHostState::<C> {
                instances: Seq::empty(),
                types: Seq::empty(),
                next_handle: 0,
            }),
    {
        ViewPlugins {
            instances: Vec::new(),
            plugin_types: Vec::new(),
            handle_counter: ViewHandle(0),
        }
    }

    /// The number of live instances.
    pub fn instance_count(&self) -> (count: usize)
        ensures
            count == self@.instances.len(),
    {
        self.instances.len()
    }

    /// The live instance at `index`, in the order in which they were made;
    /// `None` where there are not that many.
    pub fn instance_at(&self, index: usize) -> (instance: Option<&ViewInstance<C>>)
        ensures
            index < self@.instances.len() ==> instance == Some(&self@.instances[index as int]),
            index >= self@.instances.len() ==> instance.is_none(),
    {
        if index < self.instances.len() {
            Some(&self.instances[index])
        } else {
            None
        }
    }

    /// Registers `plugin` after the types that are registered already.
    pub fn add_plugin(&mut self, plugin: &Rc<Plugin<C>>)
        ensures
            final(self)@ == (ViewHostState { types: old(self)@.types.push(*plugin), ..old(self)@ }),
    {
        self.plugin_types.push(Rc::clone(plugin));
    }

    /// Makes an instance of the first type registered under the name
    /// `plugin_type`. No instance is made, and nothing changes, where no type
    /// has that name, where the first such type cannot make instances, where
    /// no handle is left, or where the plugin fails to make the instance.
    /// Where the host has no reason to refuse, the outcome is the plugin's
    /// answer: its state is the state of the new instance, and only its
    /// `None` makes the call fail.
    pub fn create_instance(&mut self, plugin_type: &String) -> (handle: Option<ViewHandle>)
        ensures
            ({
                let index = old(self)@.type_named(plugin_type@);
                &&& !old(self)@.can_create(index) ==> handle.is_none()
                &&& handle.is_some() ==> final(self)@ == old(self)@.add_instance(
                    index,
                    final(self)@.instances.last().plugin_data,
                )
            }),
            handle.is_none() ==> final(self)@ == old(self)@,
            handle.is_some() ==> handle == Some(ViewHandle(old(self)@.next_handle)),
            ({
                let index = old(self)@.type_named(plugin_type@);
                old(self)@.can_create(index) ==> creates(
                    old(self)@.types[index].plugin_funcs,
                    (match handle {
                        Some(_) => Some(final(self)@.instances.last().plugin_data),
                        None => None,
                    }),
                )
            }),
    {
        let n = self.plugin_types.len();
        let mut i: usize = 0;
        while i < n
            invariant
                n == self.plugin_types@.len(),
                i <= n,
                *self == *old(self),
                forall|j: int| 0 <= j < i ==> (#[trigger] self.plugin_types@[j]).name@ != plugin_type@,
            ensures
                i < n ==> self.plugin_types@[i as int].name@ == plugin_type@,
            decreases n - i,
        {
            if self.plugin_types[i].name == *plugin_type {
                break ;
            }
            i += 1;
        }
        proof {
            lemma_first_index_is(self@.types, view_named::<C>(plugin_type@), i as int);
        }
        if i == n || !self.plugin_types[i].caps.create_instance || self.handle_counter.0 == u64::MAX {
            return None;
        }
        match self.plugin_types[i].plugin_funcs.create_instance() {
            Some(plugin_data) => {
                let handle = self.handle_counter;
                let instance = ViewInstance {
                    plugin_data,
                    handle,
                    plugin_type: Rc::clone(&self.plugin_types[i]),
                };
                self.handle_counter.0 += 1;
                self.instances.push(instance);
                Some(handle)
            },
            None => None,
        }
    }

    /// The instance with the handle `view_handle`, for the caller to work on;
    /// `None` where no live instance has it. What the caller does to the
    /// instance is what happens to it in the host.
    pub fn get_view(&mut self, view_handle: ViewHandle) -> (view: Option<&mut ViewInstance<C>>)
        ensures
            (match view {
                Some(instance) => ({
                    let i = old(self)@.position(view_handle);
                    &&& 0 <= i < old(self)@.instances.len()
                    &&& *instance == old(self)@.instances[i]
                    &&& final(self)@ == (ViewHostState {
                        instances: old(self)@.instances.update(i, *final(instance)),
                        ..old(self)@
                    })
                }),
                None => final(self)@ == old(self)@ && !old(self)@.has_view(view_handle),
            }),
    {
        let n = self.instances.len();
        let mut i: usize = 0;
        while i < n
            invariant
                n == self.instances@.len(),
                i <= n,
                *self == *old(self),
                forall|j: int| 0 <= j < i ==> (#[trigger] self.instances@[j]).handle != view_handle,
            decreases n - i,
        {
            if self.instances[i].handle == view_handle {
                proof {
                    lemma_first_index_is(
                        self@.instances,
                        view_with_handle::<C>(view_handle),
                        i as int,
                    );
                }
                return Some(&mut self.instances[i]);
            }
            i += 1;
        }
        proof {
            lemma_first_index_is(self@.instances, view_with_handle::<C>(view_handle), n as int);
        }
        None
    }
}

} // verus!
