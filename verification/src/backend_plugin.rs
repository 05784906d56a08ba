//! The host of backend plugins: the registered backend types, the instances
//! made from them, and what is needed to make them again after a reload.

use vstd::prelude::*;
use std::rc::Rc;
use crate::plugin::{creates, occurs_in, str_contains, Lib, Plugin, PluginCallbacks};
use crate::plugin_io::{
    get_data,
    get_loader_funcs,
    get_writer_funcs,
    strings_view,
    LoadState,
    LoadStateView,
    SaveState,
};
use crate::plugins::PluginHandler;
use crate::seq_facts::{
    first_index,
    is_subsequence,
    lemma_filter_all,
    lemma_filter_distinct,
    lemma_filter_from,
    lemma_filter_members,
    lemma_first_index,
    lemma_first_index_is,
    lemma_subsequence_skip,
    lemma_subsequence_take,
};

verus! {

/// Names one backend instance for the lifetime of its host. A host hands out
/// each handle once.
#[derive(PartialEq, Eq, Clone, Copy, Debug, Structural)]
pub struct BackendHandle(pub usize);

/// One backend instance: the plugin's own state, the handle under which the
/// host knows it, its type, and where the identifiers of its menu start.
pub struct BackendInstance<C: PluginCallbacks> {
    pub plugin_data: C::Instance,
    pub handle: BackendHandle,
    pub plugin_type: Rc<Plugin<C>>,
    pub menu_id_offset: u32,
}

/// An instance that an unloading took away: the name of its type, under
/// which it is made again, and the handle it had.
struct ReloadState {
    name: String,
    handle: BackendHandle,
}

/// The host of backend plugins.
pub struct BackendPlugins<C: PluginCallbacks> {
    pub instances: Vec<BackendInstance<C>>,
    plugin_types: Vec<Rc<Plugin<C>>>,
    reload_state: Vec<ReloadState>,
    handle_counter: BackendHandle,
}

/// What a [`BackendPlugins`] stands for in contracts.
pub struct HostState<C: PluginCallbacks> {
    /// The live instances, in the order in which the host keeps them.
    pub instances: Seq<BackendInstance<C>>,
    /// The registered types, in the order of their registration.
    pub types: Seq<Rc<Plugin<C>>>,
    /// Type name and former handle of each instance that the last unloading
    /// took away.
    pub reload: Seq<(Seq<char>, BackendHandle)>,
    /// The number of the next handle. Every handle below it has been issued.
    pub next_handle: usize,
}

/// Holds of the types registered under `name`.
pub open spec fn named<C: PluginCallbacks>(name: Seq<char>) -> spec_fn(Rc<Plugin<C>>) -> bool {
    |t: Rc<Plugin<C>>| t.name@ == name
}

/// Holds of the instances with the handle `handle`.
pub open spec fn with_handle<C: PluginCallbacks>(handle: BackendHandle) -> spec_fn(
    BackendInstance<C>,
) -> bool {
    |b: BackendInstance<C>| b.handle == handle
}

/// Holds of the instances whose type does not come from the module `lib`.
pub open spec fn other_instance<C: PluginCallbacks>(lib: Lib) -> spec_fn(BackendInstance<C>) -> bool {
    |b: BackendInstance<C>| b.plugin_type.lib != lib
}

/// Holds of the types that do not come from the module `lib`.
pub open spec fn other_type<C: PluginCallbacks>(lib: Lib) -> spec_fn(Rc<Plugin<C>>) -> bool {
    |t: Rc<Plugin<C>>| t.lib != lib
}

/// The names under which the entries of a reload record are made again.
pub open spec fn recorded_names(record: Seq<(Seq<char>, BackendHandle)>) -> Seq<Seq<char>> {
    record.map_values(|e: (Seq<char>, BackendHandle)| e.0)
}

/// The names of the types of `instances`, in the same order.
pub open spec fn type_names<C: PluginCallbacks>(instances: Seq<BackendInstance<C>>) -> Seq<
    Seq<char>,
> {
    instances.map_values(|b: BackendInstance<C>| b.plugin_type.name@)
}

/// The entries that unloading `lib` records for `instances`: one for each
/// instance of a type of `lib`, the one kept last coming first.
pub open spec fn captured<C: PluginCallbacks>(instances: Seq<BackendInstance<C>>, lib: Lib) -> Seq<
    (Seq<char>, BackendHandle),
>
    decreases instances.len(),
{
    if instances.len() == 0 {
        Seq::empty()
    } else {
        let rest = captured(instances.drop_first(), lib);
        if instances[0].plugin_type.lib == lib {
            rest.push((instances[0].plugin_type.name@, instances[0].handle))
        } else {
            rest
        }
    }
}

impl<C: PluginCallbacks> HostState<C> {
    /// Every live instance has a handle that was issued, and no two have the
    /// same.
    pub open spec fn wf(self) -> bool {
        &&& forall|i: int|
            0 <= i < self.instances.len() ==> (#[trigger] self.instances[i]).handle.0
                < self.next_handle
        &&& forall|i: int, j: int|
            0 <= i < j < self.instances.len() ==> (#[trigger] self.instances[i]).handle != (
            #[trigger] self.instances[j]).handle
    }

    /// Whether the host has handed out `handle`.
    pub open spec fn issued(self, handle: BackendHandle) -> bool {
        handle.0 < self.next_handle
    }

    /// The index of the first type registered under `name`, or the number of
    /// types if there is none.
    pub open spec fn type_named(self, name: Seq<char>) -> int {
        first_index(self.types, named(name))
    }

    /// The index of the first instance with the handle `handle`, or the number
    /// of instances if there is none.
    pub open spec fn position(self, handle: BackendHandle) -> int {
        first_index(self.instances, with_handle(handle))
    }

    /// Whether an instance with the handle `handle` is alive.
    pub open spec fn has_instance(self, handle: BackendHandle) -> bool {
        self.position(handle) < self.instances.len()
    }

    /// Whether an instance of the type at `index` can be taken in: the type
    /// exists and a handle is left for the instance.
    pub open spec fn has_room(self, index: int) -> bool {
        0 <= index < self.types.len() && self.next_handle < usize::MAX
    }

    /// The host after it has taken in a new instance of the type at `index`,
    /// whose state is `plugin_data`.
    pub open spec fn add_instance(self, index: int, plugin_data: C::Instance) -> Self {
        HostState {
            instances: self.instances.push(
                BackendInstance {
                    plugin_data,
                    handle: BackendHandle(self.next_handle),
                    plugin_type: self.types[index],
                    menu_id_offset: 0,
                },
            ),
            next_handle: (self.next_handle + 1) as usize,
            ..self
        }
    }

    /// The host after `plugin` has been registered.
    pub open spec fn register(self, plugin: Rc<Plugin<C>>) -> Self {
        HostState { types: self.types.push(plugin), ..self }
    }

    /// The host after the module `lib` has been unloaded: its types and their
    /// instances are gone, the others keep their order, and the instances
    /// taken away are recorded in place of any earlier record.
    pub open spec fn unload(self, lib: Lib) -> Self {
        HostState {
            instances: self.instances.filter(other_instance(lib)),
            types: self.types.filter(other_type(lib)),
            reload: captured(self.instances, lib),
            ..self
        }
    }

    /// The names of the registered types, in the order of registration.
    pub open spec fn names(self) -> Seq<Seq<char>> {
        self.types.map_values(|t: Rc<Plugin<C>>| t.name@)
    }

    /// The instances that `after` has beyond those of this host.
    pub open spec fn fresh(self, after: Self) -> Seq<BackendInstance<C>> {
        after.instances.subrange(self.instances.len() as int, after.instances.len() as int)
    }

    /// What holds of a host `after` that came out of making instances for
    /// some of `names`, however many: the types stay, the instances that were
    /// there stay, and each new instance stands for one of the names, in their
    /// order. Each new instance is of the first type registered under its
    /// name, has the next handle and no menu offset yet. This alone lets any
    /// name be passed over; `attempts` says which names are.
    pub open spec fn rebuilt(self, names: Seq<Seq<char>>, after: Self) -> bool {
        &&& after.types == self.types
        &&& after.reload == self.reload
        &&& self.instances.len() <= after.instances.len()
        &&& after.instances.subrange(0, self.instances.len() as int) == self.instances
        &&& after.next_handle == self.next_handle + self.fresh(after).len()
        &&& forall|k: int|
            0 <= k < self.fresh(after).len() ==> {
                let b = #[trigger] self.fresh(after)[k];
                let index = self.type_named(b.plugin_type.name@);
                &&& b.handle == BackendHandle((self.next_handle + k) as usize)
                &&& b.menu_id_offset == 0
                &&& 0 <= index < self.types.len()
                &&& b.plugin_type == self.types[index]
                &&& b.plugin_type.caps.create_instance
            }
        &&& is_subsequence(type_names(self.fresh(after)), names)
    }

    /// Whether `after` is a way in which this host can come out of one
    /// attempt to make an instance under `name`, with no state loaded. Where
    /// no type has that name, the first such type cannot make instances, or no
    /// handle is left, nothing changes. Otherwise the plugin's create
    /// operation decides: either `None` is an answer of it and nothing
    /// changes, or the host has taken in one instance whose state is an answer
    /// of it.
    pub open spec fn made_again(self, name: Seq<char>, after: Self) -> bool {
        let index = self.type_named(name);
        if self.has_room(index) && self.types[index].caps.create_instance {
            ||| after == self && creates(self.types[index].plugin_funcs, None)
            ||| after == self.add_instance(index, after.instances.last().plugin_data) && creates(
                self.types[index].plugin_funcs,
                Some(after.instances.last().plugin_data),
            )
        } else {
            after == self
        }
    }

    /// Whether `states` are the states that this host goes through when one
    /// instance is attempted for each of `names`, in their order: it starts as
    /// this host, and each attempt leads from one state to the next.
    pub open spec fn attempts(self, names: Seq<Seq<char>>, states: Seq<Self>) -> bool {
        &&& states.len() == names.len() + 1
        &&& states[0] == self
        &&& forall|k: int|
            0 <= k < names.len() ==> states[k].made_again(#[trigger] names[k], states[k + 1])
    }

    /// Whether `states` are the states that this host goes through when it
    /// makes again what its record holds: the record is cleared, and then one
    /// instance is attempted for each recorded name, in the order of the
    /// record.
    pub open spec fn reload_attempts(self, states: Seq<Self>) -> bool {
        (HostState { reload: Seq::empty(), ..self }).attempts(recorded_names(self.reload), states)
    }

    /// Holds of the names under which this host makes an instance as far as
    /// its types decide: a type is registered under the name, and the first
    /// such type can make instances.
    pub open spec fn offered(self) -> spec_fn(Seq<char>) -> bool {
        |name: Seq<char>|
            0 <= self.type_named(name) < self.types.len() && self.types[self.type_named(name)].caps.create_instance
    }

    /// Whether the create operation of the first type registered under `name`
    /// never answers `None`.
    pub open spec fn never_fails(self, name: Seq<char>) -> bool {
        !creates(self.types[self.type_named(name)].plugin_funcs, None)
    }

    /// Where handles are left for all of `names`, and no create operation
    /// that is asked answers `None`, the attempts make one instance for each
    /// name that is offered, in the order of the names, and none for the
    /// others, whether these come before or after. Each new instance is of
    /// the first type registered under its name and has the next handle, no
    /// menu offset, and the state that the create operation answered, with
    /// nothing loaded into it.
    pub proof fn lemma_attempts_made(self, names: Seq<Seq<char>>, states: Seq<Self>)
        requires
            self.attempts(names, states),
            self.next_handle + names.len() < usize::MAX,
            forall|k: int|
                0 <= k < names.len() && self.offered()(#[trigger] names[k]) ==> self.never_fails(
                    names[k],
                ),
        ensures
            ({
                let after = states.last();
                let fresh = self.fresh(after);
                &&& after.types == self.types
                &&& after.reload == self.reload
                &&& self.instances.len() <= after.instances.len()
                &&& after.instances.subrange(0, self.instances.len() as int) == self.instances
                &&& after.next_handle == self.next_handle + fresh.len()
                &&& type_names(fresh) == names.filter(self.offered())
                &&& forall|k: int|
                    0 <= k < fresh.len() ==> ({
                        let b = #[trigger] fresh[k];
                        let index = self.type_named(b.plugin_type.name@);
                        &&& b.handle == BackendHandle((self.next_handle + k) as usize)
                        &&& b.menu_id_offset == 0
                        &&& 0 <= index < self.types.len()
                        &&& b.plugin_type == self.types[index]
                        &&& creates(b.plugin_type.plugin_funcs, Some(b.plugin_data))
                    })
            }),
        decreases names.len(),
    {
        reveal(Seq::filter);
        if names.len() == 0 {
            assert(self.fresh(self) == Seq::<BackendInstance<C>>::empty());
            assert(type_names(self.fresh(self)) == Seq::<Seq<char>>::empty());
            assert(self.instances.subrange(0, self.instances.len() as int) == self.instances);
        } else {
            let n = names.len() as int;
            let done = names.drop_last();
            let name = names.last();
            let before = states.drop_last();
            assert(self.attempts(done, before)) by {
                assert forall|k: int| 0 <= k < done.len() implies before[k].made_again(
                    #[trigger] done[k],
                    before[k + 1],
                ) by {
                    assert(done[k] == names[k]);
                    assert(states[k].made_again(names[k], states[k + 1]));
                }
            }
            assert forall|k: int| 0 <= k < done.len() && self.offered()(
                #[trigger] done[k],
            ) implies self.never_fails(done[k]) by {
                assert(done[k] == names[k]);
            }
            self.lemma_attempts_made(done, before);
            let mid = before.last();
            let after = states.last();
            assert(mid == states[n - 1]);
            assert(states[n - 1].made_again(names[n - 1], states[n]));
            let was = self.fresh(mid);
            done.lemma_filter_len(self.offered());
            assert(was.len() == type_names(was).len());
            lemma_first_index(self.types, named::<C>(name));
            assert(names == done.push(name));
            if self.offered()(name) {
                let index = self.type_named(name);
                let made = after.instances.last();
                assert(after == mid.add_instance(index, made.plugin_data));
                assert(self.fresh(after) == was.push(made));
                assert(type_names(was.push(made)) == type_names(was).push(name));
                assert(after.instances.subrange(0, self.instances.len() as int)
                    == mid.instances.subrange(0, self.instances.len() as int));
                assert forall|k: int| 0 <= k < self.fresh(after).len() implies ({
                    let b = #[trigger] self.fresh(after)[k];
                    let index = self.type_named(b.plugin_type.name@);
                    &&& b.handle == BackendHandle((self.next_handle + k) as usize)
                    &&& b.menu_id_offset == 0
                    &&& 0 <= index < self.types.len()
                    &&& b.plugin_type == self.types[index]
                    &&& creates(b.plugin_type.plugin_funcs, Some(b.plugin_data))
                }) by {
                    if k < was.len() {
                        assert(self.fresh(after)[k] == was[k]);
                    }
                }
            } else {
                assert(after == mid);
            }
        }
    }

    /// After a module has been unloaded, no instance of its types can be
    /// found any more, and no type of it is registered. The instances of the
    /// other modules are found as before, and every handle that was issued
    /// stays issued, so that none is handed out again.
    pub proof fn lemma_unload_forgets_module(self, lib: Lib)
        requires
            self.wf(),
        ensures
            ({
                let after = self.unload(lib);
                &&& forall|h: BackendHandle|
                    self.has_instance(h) && self.instances[self.position(h)].plugin_type.lib == lib
                        ==> !(#[trigger] after.has_instance(h))
                &&& forall|h: BackendHandle|
                    self.has_instance(h) && self.instances[self.position(h)].plugin_type.lib != lib
                        ==> (#[trigger] after.has_instance(h)) && after.instances[after.position(h)]
                        == self.instances[self.position(h)]
                &&& forall|k: int|
                    0 <= k < after.types.len() ==> (#[trigger] after.types[k]).lib != lib
                &&& forall|k: int|
                    0 <= k < after.names().len() ==> #[trigger] after.names()[k]
                        == after.types[k].name@
                &&& forall|h: BackendHandle| self.issued(h) ==> #[trigger] after.issued(h)
            }),
    {
        let after = self.unload(lib);
        let kept = after.instances;
        lemma_filter_members(self.instances, other_instance(lib));
        lemma_filter_members(self.types, other_type(lib));
        assert forall|h: BackendHandle| self.has_instance(h) implies (if self.instances[self.position(h)].plugin_type.lib
            == lib {
            !(#[trigger] after.has_instance(h))
        } else {
            after.has_instance(h) && kept[after.position(h)] == self.instances[self.position(h)]
        }) by {
            let at = self.position(h);
            lemma_first_index(self.instances, with_handle::<C>(h));
            lemma_first_index(kept, with_handle::<C>(h));
            if self.instances[at].plugin_type.lib != lib {
                self.instances.lemma_filter_contains(other_instance(lib), at);
                let q = choose|q: int| 0 <= q < kept.len() && kept[q] == self.instances[at];
                assert(kept[q].handle == h);
            }
            if after.has_instance(h) {
                let found = kept[after.position(h)];
                let m = choose|m: int| 0 <= m < self.instances.len() && self.instances[m] == found;
                assert(m == at);
            }
        }
    }

    /// Unloading a module and making its instances again gives one new
    /// instance for each entry of the record, in the order of the record,
    /// where each recorded name is registered again with a type that can make
    /// instances and whose create operation never answers `None`, and handles
    /// are left. Each new instance is of a type registered under the recorded
    /// name, has a handle that was never issued before, no menu offset, and
    /// the state that the create operation answered: what the instance held
    /// before the unloading is not brought back.
    pub proof fn lemma_reload_after_unload(self, lib: Lib, loaded: Self, states: Seq<Self>)
        requires
            loaded.reload == self.unload(lib).reload,
            loaded.reload_attempts(states),
            loaded.next_handle + loaded.reload.len() < usize::MAX,
            forall|k: int|
                0 <= k < loaded.reload.len() ==> loaded.offered()((#[trigger] loaded.reload[k]).0)
                    && loaded.never_fails(loaded.reload[k].0),
        ensures
            ({
                let record = captured(self.instances, lib);
                let after = states.last();
                &&& after.instances.len() == loaded.instances.len() + record.len()
                &&& after.instances.subrange(0, loaded.instances.len() as int) == loaded.instances
                &&& forall|k: int|
                    0 <= k < record.len() ==> ({
                        let b = #[trigger] after.instances[loaded.instances.len() + k];
                        &&& b.plugin_type.name@ == record[k].0
                        &&& b.handle == BackendHandle((loaded.next_handle + k) as usize)
                        &&& !loaded.issued(b.handle)
                        &&& b.menu_id_offset == 0
                        &&& creates(b.plugin_type.plugin_funcs, Some(b.plugin_data))
                    })
            }),
    {
        let start = HostState { reload: Seq::empty(), ..loaded };
        let record = loaded.reload;
        let names = recorded_names(record);
        let after = states.last();
        assert forall|k: int| 0 <= k < names.len() implies start.offered()(#[trigger] names[k])
            && start.never_fails(names[k]) by {
            assert(loaded.offered()(record[k].0) && loaded.never_fails(record[k].0));
        }
        start.lemma_attempts_made(names, states);
        lemma_filter_all(names, start.offered());
        let fresh = start.fresh(after);
        assert(fresh.len() == type_names(fresh).len());
        assert forall|k: int| 0 <= k < record.len() implies ({
            let b = #[trigger] after.instances[loaded.instances.len() + k];
            &&& b.plugin_type.name@ == record[k].0
            &&& b.handle == BackendHandle((loaded.next_handle + k) as usize)
            &&& !loaded.issued(b.handle)
            &&& b.menu_id_offset == 0
            &&& creates(b.plugin_type.plugin_funcs, Some(b.plugin_data))
        }) by {
            assert(fresh[k] == after.instances[loaded.instances.len() + k]);
            assert(type_names(fresh)[k] == names[k]);
        }
    }

    /// Unloading a module keeps the handles of the live instances issued and
    /// distinct.
    pub proof fn lemma_unload_wf(self, lib: Lib)
        requires
            self.wf(),
        ensures
            self.unload(lib).wf(),
    {
        let key = |b: BackendInstance<C>| b.handle;
        let kept = self.instances.filter(other_instance(lib));
        lemma_filter_members(self.instances, other_instance(lib));
        lemma_filter_distinct(self.instances, other_instance(lib), key);
        assert forall|i: int| 0 <= i < kept.len() implies (#[trigger] kept[i]).handle.0
            < self.next_handle by {
            assert(self.instances.contains(kept[i]));
        }
        assert forall|i: int, j: int| 0 <= i < j < kept.len() implies (#[trigger] kept[i]).handle
            != (#[trigger] kept[j]).handle by {
            assert(key(kept[i]) != key(kept[j]));
        }
    }

    /// Taking in an instance keeps the handles of the live instances issued
    /// and distinct.
    pub proof fn lemma_add_instance_wf(self, index: int, plugin_data: C::Instance)
        requires
            self.wf(),
            self.next_handle < usize::MAX,
        ensures
            self.add_instance(index, plugin_data).wf(),
    {
        let after = self.add_instance(index, plugin_data);
        assert forall|i: int, j: int| 0 <= i < j < after.instances.len() implies (
        #[trigger] after.instances[i]).handle != (#[trigger] after.instances[j]).handle by {
            assert(after.instances[i] == self.instances[i]);
            if j < self.instances.len() {
                assert(after.instances[j] == self.instances[j]);
            }
        }
    }
}

impl<C: PluginCallbacks> View for BackendPlugins<C> {
    type V = HostState<C>;

    closed spec fn view(&self) -> HostState<C> {
        HostState {
            instances: self.instances@,
            types: self.plugin_types@,
            reload: self.reload_state@.map_values(|r: ReloadState| (r.name@, r.handle)),
            next_handle: self.handle_counter.0,
        }
    }
}

impl<C: PluginCallbacks> PluginHandler<C> for BackendPlugins<C> {
    /// A plugin type is a backend if the name of its kind holds "Backend".
    fn is_correct_plugin_type(&self, plugin: &Plugin<C>) -> (correct: bool)
        ensures
            correct == occurs_in("Backend"@, plugin.category@),
    {
        str_contains(plugin.category.as_str(), "Backend")
    }

    /// Registers `plugin` after the types that are registered already. A
    /// type that is registered twice is kept twice.
    fn add_plugin(&mut self, plugin: &Rc<Plugin<C>>)
        ensures
            final(self)@ == old(self)@.register(*plugin),
            old(self)@.wf() ==> final(self)@.wf(),
    {
        self.plugin_types.push(Rc::clone(plugin));
        proof {
            assert(self@.instances == old(self)@.instances);
        }
    }

    /// Unloads the module `lib`: takes away the instances of its types and
    /// records each in place of any earlier record, then takes away its types.
    /// What stays keeps its order.
    fn unload_plugin(&mut self, lib: &Lib)
        ensures
            final(self)@ == old(self)@.unload(*lib),
            old(self)@.wf() ==> final(self)@.wf(),
    {
        self.reload_state.clear();
        let ghost before = self.instances@;
        let ghost len = before.len() as int;
        let mut i = self.instances.len();
        proof {
            assert(before.subrange(len, len).filter(other_instance::<C>(*lib)) == Seq::<
                BackendInstance<C>,
            >::empty()) by {
                reveal(Seq::filter);
            }
        }
        while i > 0
            invariant
                i <= len,
                len == before.len(),
                before == old(self)@.instances,
                self.plugin_types == old(self).plugin_types,
                self.handle_counter == old(self).handle_counter,
                self.instances@ == before.subrange(0, i as int) + before.subrange(
                    i as int,
                    len,
                ).filter(other_instance::<C>(*lib)),
                self@.reload == captured(before.subrange(i as int, len), *lib),
            decreases i,
        {
            i -= 1;
            proof {
                lemma_filter_from(before, other_instance::<C>(*lib), i + 1);
                assert(before.subrange(i as int, len).drop_first() == before.subrange(i + 1, len));
            }
            if self.instances[i].plugin_type.lib == *lib {
                let instance = self.instances.remove(i);
                let state = ReloadState {
                    name: instance.plugin_type.name.clone(),
                    handle: instance.handle,
                };
                self.reload_state.push(state);
            }
        }
        proof {
            assert(before.subrange(0, len) == before);
        }
        let ghost types = self.plugin_types@;
        let ghost count = types.len() as int;
        let mut j = self.plugin_types.len();
        proof {
            assert(types.subrange(count, count).filter(other_type::<C>(*lib)) == Seq::<
                Rc<Plugin<C>>,
            >::empty()) by {
                reveal(Seq::filter);
            }
        }
        while j > 0
            invariant
                j <= count,
                count == types.len(),
                types == old(self)@.types,
                self.instances@ == old(self)@.instances.filter(other_instance::<C>(*lib)),
                self@.reload == captured(old(self)@.instances, *lib),
                self.handle_counter == old(self).handle_counter,
                self.plugin_types@ == types.subrange(0, j as int) + types.subrange(
                    j as int,
                    count,
                ).filter(other_type::<C>(*lib)),
            decreases j,
        {
            j -= 1;
            proof {
                lemma_filter_from(types, other_type::<C>(*lib), j + 1);
            }
            if self.plugin_types[j].lib == *lib {
                self.plugin_types.remove(j);
            }
        }
        proof {
            assert(types.subrange(0, count) == types);
            if old(self)@.wf() {
                old(self)@.lemma_unload_wf(*lib);
            }
        }
    }

    /// Makes again the instances that the last unloading took away, each
    /// under the name of its type and in the order of the record, and clears
    /// the record. A name is passed over only where the host must refuse (no
    /// type of that name, a type that cannot make instances, no handle left)
    /// or where the plugin's create operation answers `None`. The new
    /// instances get new handles, and their state is what the create
    /// operation answered: no state is loaded into them.
    fn reload_plugin(&mut self)
        ensures
            exists|states: Seq<HostState<C>>| #[trigger]
                old(self)@.reload_attempts(states) && states.last() == final(self)@,
            (HostState { reload: Seq::empty(), ..old(self)@ }).rebuilt(
                recorded_names(old(self)@.reload),
                final(self)@,
            ),
            old(self)@.wf() ==> final(self)@.wf(),
    {
        let mut pending: Vec<ReloadState> = Vec::new();
        std::mem::swap(&mut self.reload_state, &mut pending);
        let ghost start = self@;
        let ghost names = recorded_names(old(self)@.reload);
        proof {
            assert(start.reload == Seq::<(Seq<char>, BackendHandle)>::empty());
            assert(start.instances.subrange(0, start.instances.len() as int) == start.instances);
        }
        let n = pending.len();
        let mut k: usize = 0;
        let ghost mut states: Seq<HostState<C>> = seq![start];
        while k < n
            invariant
                n == pending@.len(),
                k <= n,
                names.len() == n,
                forall|m: int| 0 <= m < n ==> (#[trigger] pending@[m]).name@ == names[m],
                start.rebuilt(names.subrange(0, k as int), self@),
                start.wf() ==> self@.wf(),
                states.len() == k + 1,
                states[0] == start,
                states.last() == self@,
                forall|m: int|
                    0 <= m < k ==> states[m].made_again(#[trigger] names[m], states[m + 1]),
            decreases n - k,
        {
            let ghost before = self@;
            let none: Option<Vec<String>> = None;
            let handle = self.create_instance(&pending[k].name, &none);
            proof {
                let done = names.subrange(0, k as int);
                let name = names[k as int];
                assert(pending@[k as int].name@ == name);
                assert(before.made_again(name, self@));
                let earlier = states;
                states = states.push(self@);
                assert forall|m: int| 0 <= m < k + 1 implies states[m].made_again(
                    #[trigger] names[m],
                    states[m + 1],
                ) by {
                    if m < k {
                        assert(earlier[m].made_again(names[m], earlier[m + 1]));
                    }
                }
                assert(names.subrange(0, k + 1) == done.push(name));
                let was = type_names(start.fresh(before));
                if handle.is_some() {
                    let index = before.type_named(name);
                    lemma_first_index(before.types, named::<C>(name));
                    let made = self@.instances.last();
                    assert(start.fresh(self@) == start.fresh(before).push(made));
                    assert(type_names(start.fresh(before).push(made)) == was.push(
                        made.plugin_type.name@,
                    ));
                    lemma_subsequence_take(was, done, name);
                    assert(self@.instances.subrange(0, start.instances.len() as int)
                        == before.instances.subrange(0, start.instances.len() as int));
                    assert forall|m: int| 0 <= m < start.fresh(self@).len() implies {
                        let b = #[trigger] start.fresh(self@)[m];
                        let index = start.type_named(b.plugin_type.name@);
                        &&& b.handle == BackendHandle((start.next_handle + m) as usize)
                        &&& b.menu_id_offset == 0
                        &&& 0 <= index < start.types.len()
                        &&& b.plugin_type == start.types[index]
                        &&& b.plugin_type.caps.create_instance
                    } by {
                        if m < start.fresh(before).len() {
                            assert(start.fresh(self@)[m] == start.fresh(before)[m]);
                        }
                    }
                } else {
                    lemma_subsequence_skip(was, done, name);
                }
            }
            k += 1;
        }
        proof {
            assert(names.subrange(0, n as int) == names);
            assert(old(self)@.reload_attempts(states));
        }
    }

    /// Nothing is done about a module that could not be loaded again.
    fn reload_failed(&mut self)
        ensures
            final(self)@ == old(self)@,
    {
    }
}

impl<C: PluginCallbacks> BackendPlugins<C> {
    /// A host without types and instances, whose first handle will be 0.
    pub fn new() -> (host: BackendPlugins<C>)
        ensures
            host@ == (HostState::<C> {
                instances: Seq::empty(),
                types: Seq::empty(),
                reload: Seq::empty(),
                next_handle: 0,
            }),
            host@.wf(),
    {
        let host = BackendPlugins {
            instances: Vec::new(),
            plugin_types: Vec::new(),
            reload_state: Vec::new(),
            handle_counter: BackendHandle(0),
        };
        proof {
            assert(host@.reload == Seq::<(Seq<char>, BackendHandle)>::empty());
        }
        host
    }

    /// The number of live instances.
    pub fn instance_count(&self) -> (count: usize)
        ensures
            count == self@.instances.len(),
    {
        self.instances.len()
    }

    /// The live instance at `index`, in the order in which the host keeps
    /// them; `None` where there are not that many.
    pub fn instance_at(&self, index: usize) -> (instance: Option<&BackendInstance<C>>)
        ensures
            index < self@.instances.len() ==> instance == Some(&self@.instances[index as int]),
            index >= self@.instances.len() ==> instance.is_none(),
    {
        if index < self.instances.len() {
            Some(&self.instances[index])
        } else {
            None
        }
    }

    /// Takes in a new instance of the type at `index` whose state the plugin
    /// has made already, and gives it the next handle. Where there is no such
    /// type, or no handle is left, nothing changes and `plugin_data` is dropped.
    pub fn insert_instance(&mut self, index: usize, plugin_data: C::Instance) -> (handle: Option<
        BackendHandle,
    >)
        ensures
            old(self)@.has_room(index as int) ==> handle == Some(BackendHandle(old(self)@.next_handle)),
            old(self)@.has_room(index as int) ==> final(self)@ == old(self)@.add_instance(
                index as int,
                plugin_data,
            ),
            !old(self)@.has_room(index as int) ==> handle.is_none() && final(self)@ == old(self)@,
            old(self)@.wf() ==> final(self)@.wf(),
    {
        if index >= self.plugin_types.len() || self.handle_counter.0 == usize::MAX {
            return None;
        }
        let handle = self.handle_counter;
        let instance = BackendInstance {
            plugin_data,
            handle,
            plugin_type: Rc::clone(&self.plugin_types[index]),
            menu_id_offset: 0,
        };
        proof {
            if self@.wf() {
                self@.lemma_add_instance_wf(index as int, plugin_data);
            }
        }
        self.handle_counter.0 += 1;
        self.instances.push(instance);
        Some(handle)
    }

    /// Makes an instance of the type at `index`: asks the type for the state
    /// of a new instance and takes it in under the next handle. No instance is
    /// made where there is no such type, where the type cannot make instances,
    /// where no handle is left, or where the plugin fails to make the state.
    /// Where the host has no reason to refuse, the outcome is the plugin's
    /// answer: its state is the state of the new instance, and only its
    /// `None` makes the call fail.
    fn create_instance_from_type(&mut self, index: usize) -> (handle: Option<BackendHandle>)
        ensures
            !(old(self)@.has_room(index as int) && old(self)@.types[index as int].caps.create_instance)
                ==> handle.is_none(),
            ({
                let plugin = old(self)@.types[index as int];
                old(self)@.has_room(index as int) && plugin.caps.create_instance ==> creates(
                    plugin.plugin_funcs,
                    (match handle {
                        Some(_) => Some(final(self)@.instances.last().plugin_data),
                        None => None,
                    }),
                )
            }),
            handle.is_none() ==> final(self)@ == old(self)@,
            handle.is_some() ==> handle == Some(BackendHandle(old(self)@.next_handle)),
            handle.is_some() ==> final(self)@ == old(self)@.add_instance(
                index as int,
                final(self)@.instances.last().plugin_data,
            ),
            old(self)@.wf() ==> final(self)@.wf(),
    {
        if index >= self.plugin_types.len() || self.handle_counter.0 == usize::MAX {
            return None;
        }
        if !self.plugin_types[index].caps.create_instance {
            return None;
        }
        match self.plugin_types[index].plugin_funcs.create_instance() {
            Some(plugin_data) => self.insert_instance(index, plugin_data),
            None => None,
        }
    }

    /// Makes an instance of the type at `index` and gives up the host. See
    /// `create_instance` for a host that lives on. Where the host has no
    /// reason to refuse, the call fails only if the plugin answers `None`,
    /// and returns a handle only if the plugin answers with a state.
    pub fn create_instance_from_index(self, index: usize) -> (handle: Option<BackendHandle>)
        ensures
            !(self@.has_room(index as int) && self@.types[index as int].caps.create_instance)
                ==> handle.is_none(),
            handle.is_some() ==> handle == Some(BackendHandle(self@.next_handle)),
            self@.has_room(index as int) && self@.types[index as int].caps.create_instance
                && handle.is_none() ==> creates(self@.types[index as int].plugin_funcs, None),
            handle.is_some() ==> exists|plugin_data: C::Instance| #[trigger]
                creates(self@.types[index as int].plugin_funcs, Some(plugin_data)),
    {
        let mut host = self;
        host.create_instance_from_type(index)
    }

    /// Makes an instance of the first type registered under the name
    /// `plugin_type`. If `data` holds a saved state, the new instance is asked
    /// to load it before the handle is returned. No instance is made, and
    /// nothing changes, where no type has that name, where the first such type
    /// cannot make instances, where no handle is left, or where the plugin
    /// fails to make the instance. Where the host has no reason to refuse,
    /// the outcome is the plugin's answer: the call fails only if the plugin
    /// answers `None`, and the state of the new instance is the state that
    /// the plugin made, after the plugin has loaded `data` into it where
    /// there is data and the type can load.
    pub fn create_instance(&mut self, plugin_type: &String, data: &Option<Vec<String>>) -> (handle:
        Option<BackendHandle>)
        ensures
            ({
                let index = old(self)@.type_named(plugin_type@);
                &&& !(old(self)@.has_room(index) && old(self)@.types[index].caps.create_instance)
                    ==> handle.is_none()
                &&& handle.is_some() ==> final(self)@ == old(self)@.add_instance(
                    index,
                    final(self)@.instances.last().plugin_data,
                )
            }),
            handle.is_none() ==> final(self)@ == old(self)@,
            handle.is_some() ==> handle == Some(BackendHandle(old(self)@.next_handle)),
            ({
                let index = old(self)@.type_named(plugin_type@);
                let plugin = old(self)@.types[index];
                let state = final(self)@.instances.last().plugin_data;
                old(self)@.has_room(index) && plugin.caps.create_instance ==> (match handle {
                    None => creates(plugin.plugin_funcs, None),
                    Some(_) => if data.is_some() && plugin.caps.load_state {
                        exists|made: &mut C::Instance, loader: &mut LoadState|
                            ({
                                &&& creates(plugin.plugin_funcs, Some(*made))
                                &&& *final(made) == state
                                &&& (*loader)@ == (LoadStateView {
                                    data: strings_view(data.unwrap()@),
                                    next: 0,
                                })
                                &&& #[trigger] call_ensures(
                                    C::load_state,
                                    (&plugin.plugin_funcs, made, loader),
                                    (),
                                )
                            })
                    } else {
                        creates(plugin.plugin_funcs, Some(state))
                    },
                })
            }),
            handle.is_some() ==> !old(self)@.issued(handle.unwrap()),
            handle.is_some() ==> final(self)@.issued(handle.unwrap()),
            forall|h: BackendHandle| old(self)@.issued(h) ==> final(self)@.issued(h),
            old(self)@.wf() ==> final(self)@.wf(),
    {
        let n = self.plugin_types.len();
        let mut i: usize = 0;
        while i < n
            invariant
                n == self.plugin_types@.len(),
                i <= n,
                *self == *old(self),
                forall|j: int| 0 <= j < i ==> (#[trigger] self.plugin_types@[j]).name@ != plugin_type@,
            ensures
                i < n ==> self.plugin_types@[i as int].name@ == plugin_type@,
            decreases n - i,
        {
            if self.plugin_types[i].name == *plugin_type {
                break ;
            }
            i += 1;
        }
        proof {
            lemma_first_index_is(self@.types, named::<C>(plugin_type@), i as int);
        }
        if i == n {
            return None;
        }
        let handle = self.create_instance_from_type(i);
        if handle.is_some() {
            if let Some(plugin_data) = data {
                let last = self.instances.len() - 1;
                self.instances[last].load_plugin_data(plugin_data);
                proof {
                    let after = self.instances@;
                    assert(self@.instances == old(self)@.add_instance(
                        i as int,
                        after[last as int].plugin_data,
                    ).instances);
                    if old(self)@.wf() {
                        old(self)@.lemma_add_instance_wf(i as int, after[last as int].plugin_data);
                    }
                }
            }
        }
        handle
    }

    /// The instance with the handle `backend_handle`, for the caller to work
    /// on; `None` where no handle is given or no live instance has it. What
    /// the caller does to the instance is what happens to it in the host.
    pub fn get_backend(&mut self, backend_handle: Option<BackendHandle>) -> (backend: Option<
        &mut BackendInstance<C>,
    >)
        ensures
            (match backend {
                Some(instance) => backend_handle.is_some() && ({
                    let i = old(self)@.position(backend_handle.unwrap());
                    &&& 0 <= i < old(self)@.instances.len()
                    &&& *instance == old(self)@.instances[i]
                    &&& final(self)@ == (HostState {
                        instances: old(self)@.instances.update(i, *final(instance)),
                        ..old(self)@
                    })
                }),
                None => final(self)@ == old(self)@ && (backend_handle.is_some()
                    ==> !old(self)@.has_instance(backend_handle.unwrap())),
            }),
    {
        if let Some(handle) = backend_handle {
            let n = self.instances.len();
            let mut i: usize = 0;
            while i < n
                invariant
                    n == self.instances@.len(),
                    i <= n,
                    backend_handle == Some(handle),
                    *self == *old(self),
                    forall|j: int| 0 <= j < i ==> (#[trigger] self.instances@[j]).handle != handle,
                decreases n - i,
            {
                if self.instances[i].handle == handle {
                    proof {
                        lemma_first_index_is(self@.instances, with_handle::<C>(handle), i as int);
                    }
                    return Some(&mut self.instances[i]);
                }
                i += 1;
            }
            proof {
                lemma_first_index_is(self@.instances, with_handle::<C>(handle), n as int);
            }
        }
        None
    }

    /// The names of the registered types, in the order of registration.
    pub fn get_plugin_names(&self) -> (names: Vec<String>)
        ensures
            strings_view(names@) == self@.names(),
    {
        let n = self.plugin_types.len();
        let mut names: Vec<String> = Vec::with_capacity(n);
        let mut i: usize = 0;
        while i < n
            invariant
                n == self.plugin_types@.len(),
                i <= n,
                strings_view(names@) == self@.names().subrange(0, i as int),
            decreases n - i,
        {
            let name = self.plugin_types[i].name.clone();
            proof {
                assert(self@.names().subrange(0, i + 1) == self@.names().subrange(0, i as int).push(
                    self@.types[i as int].name@,
                ));
            }
            names.push(name);
            i += 1;
        }
        names
    }

    /// Asks the instance with the handle `handle` for its menu, whose
    /// identifiers start at `menu_id_offset`. Where the plugin builds one, the
    /// instance remembers the offset. `None`, with nothing changed, where no
    /// live instance has the handle or its type has no menus. Otherwise the
    /// menu is the answer of the plugin's menu operation, given the
    /// instance's state and the offset, and the instance's state is what
    /// that operation made of it.
    pub fn get_menu(&mut self, handle: BackendHandle, menu_id_offset: u32) -> (menu: Option<
        Box<minifb::Menu>,
    >)
        ensures
            ({
                let i = old(self)@.position(handle);
                if old(self)@.has_instance(handle)
                    && old(self)@.instances[i].plugin_type.caps.register_menu {
                    let after = final(self)@.instances[i];
                    &&& final(self)@ == (HostState {
                        instances: old(self)@.instances.update(i, after),
                        ..old(self)@
                    })
                    &&& after.handle == handle
                    &&& after.plugin_type == old(self)@.instances[i].plugin_type
                    &&& after.menu_id_offset == (if menu.is_some() {
                        menu_id_offset
                    } else {
                        old(self)@.instances[i].menu_id_offset
                    })
                    &&& exists|state: &mut C::Instance|
                        ({
                            &&& *state == old(self)@.instances[i].plugin_data
                            &&& *final(state) == after.plugin_data
                            &&& #[trigger] call_ensures(
                                C::register_menu,
                                (
                                    &old(self)@.instances[i].plugin_type.plugin_funcs,
                                    state,
                                    menu_id_offset,
                                ),
                                menu,
                            )
                        })
                } else {
                    menu.is_none() && final(self)@ == old(self)@
                }
            }),
            old(self)@.wf() ==> final(self)@.wf(),
    {
        proof {
            lemma_first_index(self@.instances, with_handle::<C>(handle));
        }
        if let Some(backend) = self.get_backend(Some(handle)) {
            if backend.plugin_type.caps.register_menu {
                let built = backend.plugin_type.plugin_funcs.register_menu(
                    &mut backend.plugin_data,
                    menu_id_offset,
                );
                let menu = backend.record_menu(built, menu_id_offset);
                proof {
                    let i = old(self)@.position(handle);
                    if old(self)@.wf() {
                        assert forall|a: int| 0 <= a < self@.instances.len() implies (
                        #[trigger] self@.instances[a]).handle == old(self)@.instances[a].handle by {}
                    }
                }
                return menu;
            }
        }
        proof {
            let i = old(self)@.position(handle);
            if old(self)@.has_instance(handle) {
                assert(old(self)@.instances.update(i, old(self)@.instances[i]) == old(self)@.instances);
            }
        }
        None
    }
}

impl<C: PluginCallbacks> BackendInstance<C> {
    /// The name of the instance's type and, where the type can save state,
    /// what the plugin's save operation wrote, in the order of writing, when
    /// it was given this instance's state and an empty writer.
    pub fn get_plugin_data(&self) -> (saved: (String, Option<Vec<String>>))
        ensures
            saved.0@ == self.plugin_type.name@,
            saved.1.is_some() == self.plugin_type.caps.save_state,
            self.plugin_type.caps.save_state ==> exists|writer: &mut SaveState|
                ({
                    &&& (*writer)@ == Seq::<Seq<char>>::empty()
                    &&& strings_view(saved.1.unwrap()@) == (*final(writer))@
                    &&& #[trigger] call_ensures(
                        C::save_state,
                        (&self.plugin_type.plugin_funcs, &self.plugin_data, writer),
                        (),
                    )
                }),
    {
        let mut plugin_data: Option<Vec<String>> = None;
        if self.plugin_type.caps.save_state {
            let mut writer = get_writer_funcs();
            self.plugin_type.plugin_funcs.save_state(&self.plugin_data, &mut writer);
            plugin_data = Some(get_data(&mut writer));
        }
        (self.plugin_type.name.clone(), plugin_data)
    }

    /// Asks the plugin to take the instance's state from `data`. Where the
    /// type cannot load state, nothing happens. Where it can, the instance's
    /// state becomes what the plugin's load operation makes of it, given a
    /// loader that holds `data` and is placed before its first string. Only
    /// the plugin's own state can change.
    pub fn load_plugin_data(&mut self, data: &Vec<String>)
        ensures
            final(self).handle == old(self).handle,
            final(self).plugin_type == old(self).plugin_type,
            final(self).menu_id_offset == old(self).menu_id_offset,
            !old(self).plugin_type.caps.load_state ==> *final(self) == *old(self),
            old(self).plugin_type.caps.load_state ==> exists|
                state: &mut C::Instance,
                loader: &mut LoadState,
            |
                ({
                    &&& *state == old(self).plugin_data
                    &&& *final(state) == final(self).plugin_data
                    &&& (*loader)@ == (LoadStateView { data: strings_view(data@), next: 0 })
                    &&& #[trigger] call_ensures(
                        C::load_state,
                        (&old(self).plugin_type.plugin_funcs, state, loader),
                        (),
                    )
                }),
    {
        if self.plugin_type.caps.load_state {
            let mut loader = get_loader_funcs(data);
            self.plugin_type.plugin_funcs.load_state(&mut self.plugin_data, &mut loader);
        }
    }

    /// Takes note of what the plugin answered when asked for a menu whose
    /// identifiers start at `menu_id_offset`: where it built one, the
    /// instance remembers the offset. Hands the answer on.
    pub fn record_menu(&mut self, built: Option<Box<minifb::Menu>>, menu_id_offset: u32) -> (menu:
        Option<Box<minifb::Menu>>)
        ensures
            menu == built,
            final(self).menu_id_offset == (if built.is_some() {
                menu_id_offset
            } else {
                old(self).menu_id_offset
            }),
            final(self).handle == old(self).handle,
            final(self).plugin_type == old(self).plugin_type,
            final(self).plugin_data == old(self).plugin_data,
    {
        if built.is_some() {
            self.menu_id_offset = menu_id_offset;
        }
        built
    }
}

} // verus!
