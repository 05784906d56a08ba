//! Sessions. A session has one backend and any number of views, and they
//! talk to one another through events only: what is written in one tick is
//! read in the next. Two writers take turns, so that no writer is read while
//! it is written to.

use vstd::prelude::*;
use crate::plugin::PluginCallbacks;
use crate::plugins::PluginHandler;
use crate::read_write::{
    Event,
    EventView,
    Reader,
    ReaderView,
    ReaderWrapper,
    Writer,
    WriterView,
    WriterWrapper,
    events_view,
};
use crate::seq_facts::lemma_first_index;
use crate::view_plugins::{view_with_handle, ViewHandle, ViewHostState, ViewInstance, ViewPlugins};

verus! {

/// The two writers and the reader of a session, as contracts see them: the
/// completed events of each writer, which of the two is written to in this
/// tick, and the events that are read in this tick.
pub struct Channels {
    pub slots: Seq<Seq<EventView>>,
    pub current: int,
    pub reader: Seq<EventView>,
}

impl Channels {
    /// There are two slots, and one of them is the write target.
    pub open spec fn wf(self) -> bool {
        self.slots.len() == 2 && (self.current == 0 || self.current == 1)
    }

    /// What has been written in this tick.
    pub open spec fn write_target(self) -> Seq<EventView> {
        self.slots[self.current]
    }

    /// What is read in this tick.
    pub open spec fn read(self) -> Seq<EventView> {
        self.reader
    }

    /// The channels after `event` has been written.
    pub open spec fn write(self, event: EventView) -> Channels {
        Channels { slots: self.slots.update(self.current, self.write_target().push(event)), ..self }
    }

    /// The channels after the events of `events` have been written, one after
    /// the other.
    pub open spec fn write_all(self, events: Seq<EventView>) -> Channels
        decreases events.len(),
    {
        if events.len() == 0 {
            self
        } else {
            self.write_all(events.drop_last()).write(events.last())
        }
    }

    /// The channels at the start of the next tick: what was written is now
    /// what is read, and the other slot, emptied, is the new write target.
    pub open spec fn rotate(self) -> Channels {
        Channels {
            slots: self.slots.update(1 - self.current, Seq::empty()),
            current: 1 - self.current,
            reader: self.write_target(),
        }
    }

    /// Writing changes the write target only: it appends the events to it,
    /// in their order, and leaves alone what is read.
    pub proof fn lemma_write_all(self, events: Seq<EventView>)
        requires
            self.wf(),
        ensures
            self.write_all(events).wf(),
            self.write_all(events).current == self.current,
            self.write_all(events).read() == self.read(),
            self.write_all(events).write_target() == self.write_target() + events,
            self.write_all(events).slots[1 - self.current] == self.slots[1 - self.current],
        decreases events.len(),
    {
        if events.len() > 0 {
            self.lemma_write_all(events.drop_last());
        }
    }

    /// What is written in one tick is read in the next, all of it and in the
    /// order of writing, and is not read in the tick in which it is written.
    pub proof fn lemma_written_is_read_next_tick(self, events: Seq<EventView>)
        requires
            self.wf(),
        ensures
            self.rotate().write_all(events).read() == self.rotate().read(),
            self.rotate().write_all(events).rotate().read() == events,
    {
        let tick = self.rotate();
        tick.lemma_write_all(events);
    }

    /// A tick turns the roles of the two slots round, once. After a tick in
    /// which nothing was written, nothing is read.
    pub proof fn lemma_rotate(self)
        requires
            self.wf(),
        ensures
            self.rotate().wf(),
            self.rotate().current != self.current,
            self.rotate().rotate().current == self.current,
            self.rotate().write_target() == Seq::<EventView>::empty(),
            self.rotate().rotate().read() == Seq::<EventView>::empty(),
    {
    }
}

/// The settings of a connection to a remote backend: for now its address.
pub struct ConnectionSettings<'a> {
    pub address: &'a str,
}

/// A session: the views that belong to it, the two writers that take turns,
/// the reader, and which writer is written to in this tick.
pub struct Session {
    pub views: Vec<ViewHandle>,
    pub writers: [Writer; 2],
    pub reader: Reader,
    pub current_writer: usize,
}

impl Session {
    /// One of the two writers is the write target.
    pub open spec fn wf(&self) -> bool {
        self.current_writer < 2
    }

    /// The session's channels.
    pub open spec fn channels(&self) -> Channels {
        Channels {
            slots: seq![self.writers[0]@.events, self.writers[1]@.events],
            current: self.current_writer as int,
            reader: self.reader@.events,
        }
    }

    /// Whether `after` is a way in which this session can come out of a
    /// tick: the slots have turned round once, what was written before the
    /// tick is what is read now, from its first event on, the writer that held
    /// it is untouched, and the views are the same. What the new write target
    /// holds is up to the views that were updated.
    pub open spec fn ticked(&self, after: Session) -> bool {
        &&& after.wf()
        &&& after.current_writer == 1 - self.current_writer
        &&& after.reader@ == (ReaderView { events: self.channels().write_target(), cursor: 0 })
        &&& after.writers[self.current_writer as int] == self.writers[self.current_writer as int]
        &&& after.views == self.views
    }

    /// A session without views, in which nothing has been written: the first
    /// writer is the write target.
    pub fn new() -> (session: Session)
        ensures
            session.wf(),
            session.views@ == Seq::<ViewHandle>::empty(),
            session.current_writer == 0,
            session.writers[0]@ == (WriterView { events: Seq::empty(), open: None }),
            session.writers[1]@ == (WriterView { events: Seq::empty(), open: None }),
            session.reader@ == (ReaderView { events: Seq::empty(), cursor: 0 }),
    {
        Session {
            views: Vec::new(),
            writers: [WriterWrapper::create_writer(), WriterWrapper::create_writer()],
            reader: ReaderWrapper::create_reader(),
            current_writer: 0,
        }
    }

    /// Reserved for sessions whose backend runs on another machine. A session
    /// has no such backend, and the call has no effect.
    pub fn start_remote<C: PluginCallbacks>(
        _plugin_handler: &dyn PluginHandler<C>,
        _settings: &ConnectionSettings,
    ) {
    }

    /// Reserved for sessions that start their backend themselves. A session
    /// starts none, and the call has no effect.
    pub fn start_local(_name: &str, _port: usize) {
    }

    /// Lets one view work for a tick, if its type has an update at all: it
    /// may read `reader` and write to `writer`. What becomes of the view's
    /// state and of `writer` is what the plugin's update makes of them, given
    /// `reader`. The view keeps its handle and its type.
    fn update_view_instance<C: PluginCallbacks>(
        reader: &Reader,
        writer: &mut Writer,
        view: &mut ViewInstance<C>,
    )
        ensures
            final(view).handle == old(view).handle,
            final(view).plugin_type == old(view).plugin_type,
            !old(view).plugin_type.caps.update ==> *final(view) == *old(view),
            !old(view).plugin_type.caps.update ==> *final(writer) == *old(writer),
            old(view).plugin_type.caps.update ==> exists|state: &mut C::Instance, target: &mut Writer|
                ({
                    &&& *state == old(view).plugin_data
                    &&& *final(state) == final(view).plugin_data
                    &&& *target == *old(writer)
                    &&& *final(target) == *final(writer)
                    &&& #[trigger] call_ensures(
                        C::update,
                        (&old(view).plugin_type.plugin_funcs, state, reader, target),
                        (),
                    )
                }),
    {
        if view.plugin_type.caps.update {
            view.plugin_type.plugin_funcs.update(&mut view.plugin_data, reader, writer);
        }
    }

    /// Adds a view to the session, after the views it has.
    pub fn add_view(&mut self, view: ViewHandle)
        ensures
            final(self).views@ == old(self).views@.push(view),
            final(self).writers == old(self).writers,
            final(self).reader == old(self).reader,
            final(self).current_writer == old(self).current_writer,
    {
        self.views.push(view);
    }

    /// Writes `event` to the write target of this tick, after the events
    /// that it holds. An event that was begun there and not ended stays as it
    /// is, and so does the other writer.
    pub fn write(&mut self, event: Event)
        requires
            old(self).wf(),
        ensures
            final(self).channels() == old(self).channels().write(event@),
            final(self).writers[old(self).current_writer as int]@.open == old(self).writers[old(self).current_writer as int]@.open,
            final(self).writers[1 - old(self).current_writer] == old(self).writers[1 - old(self).current_writer],
            final(self).views == old(self).views,
            final(self).reader == old(self).reader,
            final(self).current_writer == old(self).current_writer,
    {
        let current = self.current_writer;
        self.writers[current].write(event);
        proof {
            assert(self.channels().slots == old(self).channels().write(event@).slots);
        }
    }

    /// The events that were written during the previous tick, in the order of
    /// writing. Reading takes nothing away.
    pub fn read(&self) -> (events: Vec<Event>)
        ensures
            events_view(events@) == self.channels().read(),
    {
        self.reader.read()
    }

    /// Starts a tick: what was written becomes what is read, from its first
    /// event on, and the other writer is emptied and becomes the write target.
    pub fn rotate(&mut self)
        requires
            old(self).wf(),
        ensures
            final(self).channels() == old(self).channels().rotate(),
            old(self).ticked(*final(self)),
            final(self).writers[final(self).current_writer as int]@ == (WriterView {
                events: Seq::empty(),
                open: None,
            }),
    {
        let previous = self.current_writer;
        let current = 1 - previous;
        self.current_writer = current;
        ReaderWrapper::init_from_writer(&mut self.reader, &self.writers[previous]);
        self.writers[current].reset();
        proof {
            assert(self.channels().slots == old(self).channels().rotate().slots);
        }
    }

    /// Whether none of `views` takes part in a tick with the host `host`:
    /// each of them is unknown to the host or of a type without an update.
    pub open spec fn updates_none<C: PluginCallbacks>(
        views: Seq<ViewHandle>,
        host: ViewHostState<C>,
    ) -> bool {
        forall|i: int|
            0 <= i < views.len() ==> !(host.has_view(#[trigger] views[i]) && host.instances[host.position(
                views[i],
            )].plugin_type.caps.update)
    }

    /// Whether `hosts` and `targets` can tell of a tick of a session with the
    /// views `views`, begun with the host `host`: each has one entry for the
    /// start of the tick and one for the time after each view's turn, the
    /// first host is `host`, and the first write target is empty.
    pub open spec fn turns<C: PluginCallbacks>(
        views: Seq<ViewHandle>,
        host: ViewHostState<C>,
        hosts: Seq<ViewHostState<C>>,
        targets: Seq<Writer>,
    ) -> bool {
        &&& hosts.len() == views.len() + 1
        &&& targets.len() == views.len() + 1
        &&& hosts[0] == host
        &&& targets[0]@ == (WriterView { events: Seq::empty(), open: None })
    }

    /// One tick of the session, as `update` does it, together with the
    /// hosts and the write targets that the views found and left in their
    /// turns.
    #[verifier::rlimit(60)]
    fn update_traced<C: PluginCallbacks>(&mut self, view_plugins: &mut ViewPlugins<C>) -> (trace:
        Ghost<(Seq<ViewHostState<C>>, Seq<Writer>)>)
        requires
            old(self).wf(),
        ensures
            old(self).ticked(*final(self)),
            final(self).channels().read() == old(self).channels().rotate().read(),
            old(view_plugins)@.same_views(final(view_plugins)@),
            forall|j: int|
                0 <= j < old(view_plugins)@.instances.len() && !old(self).views@.contains(
                    old(view_plugins)@.instances[j].handle,
                ) ==> #[trigger] final(view_plugins)@.instances[j] == old(view_plugins)@.instances[j],
            Self::updates_none(old(self).views@, old(view_plugins)@) ==> final(view_plugins)@
                == old(view_plugins)@,
            Self::updates_none(old(self).views@, old(view_plugins)@) ==> final(self).channels()
                == old(self).channels().rotate(),
            ({
                let hosts = trace@.0;
                let targets = trace@.1;
                &&& Session::turns(old(self).views@, old(view_plugins)@, hosts, targets)
                &&& hosts.last() == final(view_plugins)@
                &&& targets.last() == final(self).writers[final(self).current_writer as int]
                &&& forall|k: int|
                    0 <= k < old(self).views@.len() ==> ({
                        let h = hosts[k];
                        let at = h.position(#[trigger] old(self).views@[k]);
                        if h.has_view(old(self).views@[k]) && h.instances[at].plugin_type.caps.update {
                            &&& hosts[k + 1] == (ViewHostState {
                                instances: h.instances.update(at, hosts[k + 1].instances[at]),
                                ..h
                            })
                            &&& hosts[k + 1].instances[at].handle == h.instances[at].handle
                            &&& hosts[k + 1].instances[at].plugin_type == h.instances[at].plugin_type
                            &&& exists|state: &mut C::Instance, target: &mut Writer|
                                ({
                                    &&& *state == h.instances[at].plugin_data
                                    &&& *final(state) == hosts[k + 1].instances[at].plugin_data
                                    &&& *target == targets[k]
                                    &&& *final(target) == targets[k + 1]
                                    &&& #[trigger] call_ensures(
                                        C::update,
                                        (&h.instances[at].plugin_type.plugin_funcs, state, &final(self).reader, target),
                                        (),
                                    )
                                })
                        } else {
                            hosts[k + 1] == h && targets[k + 1] == targets[k]
                        }
                    })
            }),
    {
        self.rotate();
        let current = self.current_writer;
        let ghost rotated = self.channels();
        let ghost host = view_plugins@;
        let ghost reader = self.reader;
        let ghost mut hosts: Seq<ViewHostState<C>> = seq![host];
        let ghost mut targets: Seq<Writer> = seq![self.writers[current as int]];
        let n = self.views.len();
        let mut i: usize = 0;
        while i < n
            invariant
                n == self.views@.len(),
                i <= n,
                current == self.current_writer,
                current < 2,
                old(self).ticked(*self),
                self.views == old(self).views,
                self.reader == reader,
                host == old(view_plugins)@,
                host.same_views(view_plugins@),
                hosts.len() == i + 1,
                targets.len() == i + 1,
                hosts[0] == host,
                targets[0]@ == (WriterView { events: Seq::empty(), open: None }),
                hosts.last() == view_plugins@,
                targets.last() == self.writers[current as int],
                forall|k: int|
                    0 <= k < i ==> ({
                        let h = hosts[k];
                        let at = h.position(#[trigger] self.views@[k]);
                        if h.has_view(self.views@[k]) && h.instances[at].plugin_type.caps.update {
                            &&& hosts[k + 1] == (ViewHostState {
                                instances: h.instances.update(at, hosts[k + 1].instances[at]),
                                ..h
                            })
                            &&& hosts[k + 1].instances[at].handle == h.instances[at].handle
                            &&& hosts[k + 1].instances[at].plugin_type == h.instances[at].plugin_type
                            &&& exists|state: &mut C::Instance, target: &mut Writer|
                                ({
                                    &&& *state == h.instances[at].plugin_data
                                    &&& *final(state) == hosts[k + 1].instances[at].plugin_data
                                    &&& *target == targets[k]
                                    &&& *final(target) == targets[k + 1]
                                    &&& #[trigger] call_ensures(
                                        C::update,
                                        (
                                            &h.instances[at].plugin_type.plugin_funcs,
                                            state,
                                            &reader,
                                            target,
                                        ),
                                        (),
                                    )
                                })
                        } else {
                            hosts[k + 1] == h && targets[k + 1] == targets[k]
                        }
                    }),
                forall|j: int|
                    0 <= j < host.instances.len() && !self.views@.contains(host.instances[j].handle)
                        ==> #[trigger] view_plugins@.instances[j] == host.instances[j],
                Self::updates_none(self.views@, host) ==> view_plugins@ == host && self.channels()
                    == rotated,
            decreases n - i,
        {
            let handle = self.views[i];
            let ghost before = view_plugins@;
            proof {
                lemma_first_index(before.instances, view_with_handle::<C>(handle));
            }
            if let Some(view) = view_plugins.get_view(handle) {
                Self::update_view_instance(&self.reader, &mut self.writers[current], view);
            }
            proof {
                let at = before.position(handle);
                if before.has_view(handle) && !before.instances[at].plugin_type.caps.update {
                    assert(view_plugins@.instances == before.instances);
                }
                hosts = hosts.push(view_plugins@);
                targets = targets.push(self.writers[current as int]);
            }
            i += 1;
        }
        Ghost((hosts, targets))
    }

    /// One tick of the session: starts the tick as `rotate` does, and then
    /// lets each view of the session that `view_plugins` knows work on what
    /// is read and on the write target, in the order of the views. A view that
    /// `view_plugins` does not know is passed over, and so is one whose type
    /// has no update. Instances that are no views of this session are left
    /// alone.
    ///
    /// The views have their turns one after the other. In its turn a view
    /// that takes part is given its own state, the reader of this tick and the
    /// write target as the views before it left it, and what its update makes
    /// of the state and of the write target is what the next view finds. The
    /// turn of a view that does not take part changes nothing.
    pub fn update<C: PluginCallbacks>(&mut self, view_plugins: &mut ViewPlugins<C>)
        requires
            old(self).wf(),
        ensures
            old(self).ticked(*final(self)),
            exists|hosts: Seq<ViewHostState<C>>, targets: Seq<Writer>|
                ({
                    &&& #[trigger] Self::turns(old(self).views@, old(view_plugins)@, hosts, targets)
                    &&& hosts.last() == final(view_plugins)@
                    &&& targets.last() == final(self).writers[final(self).current_writer as int]
                    &&& forall|k: int|
                        0 <= k < old(self).views@.len() ==> ({
                            let h = hosts[k];
                            let at = h.position(#[trigger] old(self).views@[k]);
                            if h.has_view(old(self).views@[k])
                                && h.instances[at].plugin_type.caps.update {
                                &&& hosts[k + 1] == (ViewHostState {
                                    instances: h.instances.update(at, hosts[k + 1].instances[at]),
                                    ..h
                                })
                                &&& hosts[k + 1].instances[at].handle == h.instances[at].handle
                                &&& hosts[k + 1].instances[at].plugin_type
                                    == h.instances[at].plugin_type
                                &&& exists|state: &mut C::Instance, target: &mut Writer|
                                    ({
                                        &&& *state == h.instances[at].plugin_data
                                        &&& *final(state) == hosts[k + 1].instances[at].plugin_data
                                        &&& *target == targets[k]
                                        &&& *final(target) == targets[k + 1]
                                        &&& #[trigger] call_ensures(
                                            C::update,
                                            (
                                                &h.instances[at].plugin_type.plugin_funcs,
                                                state,
                                                &final(self).reader,
                                                target,
                                            ),
                                            (),
                                        )
                                    })
                            } else {
                                hosts[k + 1] == h && targets[k + 1] == targets[k]
                            }
                        })
                }),
            final(self).channels().read() == old(self).channels().rotate().read(),
            old(view_plugins)@.same_views(final(view_plugins)@),
            forall|j: int|
                0 <= j < old(view_plugins)@.instances.len() && !old(self).views@.contains(
                    old(view_plugins)@.instances[j].handle,
                ) ==> #[trigger] final(view_plugins)@.instances[j] == old(view_plugins)@.instances[j],
            Self::updates_none(old(self).views@, old(view_plugins)@) ==> final(view_plugins)@
                == old(view_plugins)@,
            Self::updates_none(old(self).views@, old(view_plugins)@) ==> final(self).channels()
                == old(self).channels().rotate(),
    {
        let trace = self.update_traced(view_plugins);
        proof {
            assert(Self::turns(old(self).views@, old(view_plugins)@, trace@.0, trace@.1));
        }
    }
}

/// The sessions of the program.
pub struct Sessions {
    instances: Vec<Session>,
    current: usize,
}

/// What a [`Sessions`] stands for in contracts: the sessions, in the order in
/// which they were made, and the place of the one that the user works with.
pub struct SessionsView {
    pub sessions: Seq<Session>,
    pub current: int,
}

impl View for Sessions {
    type V = SessionsView;

    closed spec fn view(&self) -> SessionsView {
        SessionsView { sessions: self.instances@, current: self.current as int }
    }
}

impl Sessions {
    /// Every session is well formed.
    pub open spec fn wf(&self) -> bool {
        forall|i: int| 0 <= i < self@.sessions.len() ==> (#[trigger] self@.sessions[i]).wf()
    }

    /// No session yet. The first one that is made will be the current one.
    pub fn new() -> (sessions: Sessions)
        ensures
            sessions@ == (SessionsView { sessions: Seq::empty(), current: 0 }),
            sessions.wf(),
    {
        Sessions { instances: Vec::new(), current: 0 }
    }

    /// Adds a new session, after the sessions there are.
    pub fn create_instance(&mut self)
        ensures
            final(self)@.current == old(self)@.current,
            final(self)@.sessions.len() == old(self)@.sessions.len() + 1,
            final(self)@.sessions.subrange(0, old(self)@.sessions.len() as int) == old(self)@.sessions,
            final(self)@.sessions.last().wf(),
            final(self)@.sessions.last().views@ == Seq::<ViewHandle>::empty(),
            final(self)@.sessions.last().current_writer == 0,
            final(self)@.sessions.last().writers[0]@ == (WriterView {
                events: Seq::empty(),
                open: None,
            }),
            final(self)@.sessions.last().writers[1]@ == (WriterView {
                events: Seq::empty(),
                open: None,
            }),
            final(self)@.sessions.last().reader@ == (ReaderView { events: Seq::empty(), cursor: 0 }),
            old(self).wf() ==> final(self).wf(),
    {
        let s = Session::new();
        self.instances.push(s);
    }

    /// Whether `handle` is a view of one of the sessions.
    pub open spec fn has_view(&self, handle: ViewHandle) -> bool {
        exists|i: int|
            0 <= i < self@.sessions.len() && (#[trigger] self@.sessions[i]).views@.contains(handle)
    }

    /// Whether `stages`, `turns` and `targets` can tell of a tick of `count`
    /// sessions, begun with the host `host`: `stages` has one host for the
    /// start and one for the time after each session's tick, the first being
    /// `host`, and `turns` and `targets` have one entry for each session, which
    /// tell of its views' turns as `Session::turns` says.
    pub open spec fn stages_of<C: PluginCallbacks>(
        count: nat,
        host: ViewHostState<C>,
        stages: Seq<ViewHostState<C>>,
        turns: Seq<Seq<ViewHostState<C>>>,
        targets: Seq<Seq<Writer>>,
    ) -> bool {
        &&& stages.len() == count + 1
        &&& stages[0] == host
        &&& turns.len() == count
        &&& targets.len() == count
    }

    /// One tick of every session, as `update` does it, together with the
    /// hosts between the sessions' ticks and what tells of each session's
    /// views' turns.
    #[verifier::rlimit(40)]
    fn update_traced<C: PluginCallbacks>(&mut self, view_plugins: &mut ViewPlugins<C>) -> (trace:
        Ghost<(Seq<ViewHostState<C>>, Seq<Seq<ViewHostState<C>>>, Seq<Seq<Writer>>)>)
        requires
            old(self).wf(),
        ensures
            final(self).wf(),
            final(self)@.current == old(self)@.current,
            final(self)@.sessions.len() == old(self)@.sessions.len(),
            forall|i: int|
                0 <= i < old(self)@.sessions.len() ==> (#[trigger] old(self)@.sessions[i]).ticked(
                    final(self)@.sessions[i],
                ),
            old(view_plugins)@.same_views(final(view_plugins)@),
            forall|j: int|
                0 <= j < old(view_plugins)@.instances.len() && !old(self).has_view(
                    old(view_plugins)@.instances[j].handle,
                ) ==> #[trigger] final(view_plugins)@.instances[j] == old(view_plugins)@.instances[j],
            ({
                let stages = trace@.0;
                let turns = trace@.1;
                let targets = trace@.2;
                ({
                    &&& Self::stages_of(
                        old(self)@.sessions.len(),
                        old(view_plugins)@,
                        stages,
                        turns,
                        targets,
                    )
                    &&& stages.last() == final(view_plugins)@
                    &&& forall|s: int|
                        #![trigger old(self)@.sessions[s]]
                        0 <= s < old(self)@.sessions.len() ==> ({
                            let before = old(self)@.sessions[s];
                            let after = final(self)@.sessions[s];
                            &&& Session::updates_none(before.views@, stages[s]) ==> stages[s + 1] == stages[s]
                                && after.channels() == before.channels().rotate()
                            &&& Session::turns(before.views@, stages[s], turns[s], targets[s])
                            &&& turns[s].last() == stages[s + 1]
                            &&& targets[s].last() == after.writers[after.current_writer as int]
                        })
                    &&& forall|s: int, k: int|
                        #![trigger old(self)@.sessions[s].views@[k]]
                        0 <= s < old(self)@.sessions.len() && 0 <= k < old(self)@.sessions[s].views@.len() ==> ({
                            let handle = old(self)@.sessions[s].views@[k];
                            let h = turns[s][k];
                            let at = h.position(handle);
                            if h.has_view(handle) && h.instances[at].plugin_type.caps.update {
                                &&& turns[s][k + 1] == (ViewHostState {
                                    instances: h.instances.update(at, turns[s][k + 1].instances[at]),
                                    ..h
                                })
                                &&& turns[s][k + 1].instances[at].handle == h.instances[at].handle
                                &&& turns[s][k + 1].instances[at].plugin_type == h.instances[at].plugin_type
                                &&& exists|state: &mut C::Instance, target: &mut Writer|
                                    ({
                                        &&& *state == h.instances[at].plugin_data
                                        &&& *final(state) == turns[s][k + 1].instances[at].plugin_data
                                        &&& *target == targets[s][k]
                                        &&& *final(target) == targets[s][k + 1]
                                        &&& #[trigger] call_ensures(
                                            C::update,
                                            (
                                                &h.instances[at].plugin_type.plugin_funcs,
                                                state,
                                                &final(self)@.sessions[s].reader,
                                                target,
                                            ),
                                            (),
                                        )
                                    })
                            } else {
                                turns[s][k + 1] == h && targets[s][k + 1] == targets[s][k]
                            }
                        })
                })
            }),
    {
        let n = self.instances.len();
        let mut i: usize = 0;
        let ghost mut stages: Seq<ViewHostState<C>> = seq![view_plugins@];
        let ghost mut turns: Seq<Seq<ViewHostState<C>>> = Seq::empty();
        let ghost mut targets: Seq<Seq<Writer>> = Seq::empty();
        while i < n
            invariant
                n == self.instances@.len(),
                n == old(self)@.sessions.len(),
                self.current == old(self).current,
                i <= n,
                stages.len() == i + 1,
                stages[0] == old(view_plugins)@,
                stages.last() == view_plugins@,
                turns.len() == i,
                targets.len() == i,
                forall|s: int|
                    #![trigger old(self)@.sessions[s]]
                    0 <= s < i ==> ({
                        let before = old(self)@.sessions[s];
                        let after = self@.sessions[s];
                        &&& Session::updates_none(before.views@, stages[s]) ==> stages[s + 1] == stages[s]
                            && after.channels() == before.channels().rotate()
                        &&& Session::turns(before.views@, stages[s], turns[s], targets[s])
                        &&& turns[s].last() == stages[s + 1]
                        &&& targets[s].last() == after.writers[after.current_writer as int]
                    }),
                forall|s: int, k: int|
                    #![trigger old(self)@.sessions[s].views@[k]]
                    0 <= s < i && 0 <= k < old(self)@.sessions[s].views@.len() ==> ({
                        let handle = old(self)@.sessions[s].views@[k];
                        let h = turns[s][k];
                        let at = h.position(handle);
                        if h.has_view(handle) && h.instances[at].plugin_type.caps.update {
                            &&& turns[s][k + 1] == (ViewHostState {
                                instances: h.instances.update(at, turns[s][k + 1].instances[at]),
                                ..h
                            })
                            &&& turns[s][k + 1].instances[at].handle == h.instances[at].handle
                            &&& turns[s][k + 1].instances[at].plugin_type == h.instances[at].plugin_type
                            &&& exists|state: &mut C::Instance, target: &mut Writer|
                                ({
                                    &&& *state == h.instances[at].plugin_data
                                    &&& *final(state) == turns[s][k + 1].instances[at].plugin_data
                                    &&& *target == targets[s][k]
                                    &&& *final(target) == targets[s][k + 1]
                                    &&& #[trigger] call_ensures(
                                        C::update,
                                        (
                                            &h.instances[at].plugin_type.plugin_funcs,
                                            state,
                                            &self@.sessions[s].reader,
                                            target,
                                        ),
                                        (),
                                    )
                                })
                        } else {
                            turns[s][k + 1] == h && targets[s][k + 1] == targets[s][k]
                        }
                    }),
                forall|j: int|
                    0 <= j < i ==> (#[trigger] old(self)@.sessions[j]).ticked(self@.sessions[j]),
                forall|j: int| i <= j < n ==> #[trigger] self@.sessions[j] == old(self)@.sessions[j],
                forall|j: int| 0 <= j < n ==> (#[trigger] old(self)@.sessions[j]).wf(),
                old(view_plugins)@.same_views(view_plugins@),
                forall|j: int|
                    0 <= j < old(view_plugins)@.instances.len() && !old(self).has_view(
                        old(view_plugins)@.instances[j].handle,
                    ) ==> #[trigger] view_plugins@.instances[j] == old(view_plugins)@.instances[j],
            decreases n - i,
        {
            let ghost before = view_plugins@;
            let ghost earlier = self@.sessions;
            assert(self@.sessions[i as int] == old(self)@.sessions[i as int]);
            let trace = self.instances[i].update_traced(view_plugins);
            proof {
                let turns_before = turns;
                let targets_before = targets;
                stages = stages.push(view_plugins@);
                turns = turns.push(trace@.0);
                targets = targets.push(trace@.1);
                assert forall|s: int| 0 <= s < i implies self@.sessions[s] == earlier[s]
                    && turns[s] == turns_before[s] && targets[s] == targets_before[s] by {}
                assert(turns[i as int] == trace@.0 && targets[i as int] == trace@.1);
                assert(earlier[i as int] == old(self)@.sessions[i as int]);
                assert forall|s: int, k: int|
                    #![trigger old(self)@.sessions[s].views@[k]]
                    0 <= s < i && 0 <= k < old(self)@.sessions[s].views@.len() implies ({
                        let handle = old(self)@.sessions[s].views@[k];
                        let h = turns[s][k];
                        let at = h.position(handle);
                        if h.has_view(handle) && h.instances[at].plugin_type.caps.update {
                            &&& turns[s][k + 1] == (ViewHostState {
                                instances: h.instances.update(at, turns[s][k + 1].instances[at]),
                                ..h
                            })
                            &&& turns[s][k + 1].instances[at].handle == h.instances[at].handle
                            &&& turns[s][k + 1].instances[at].plugin_type == h.instances[at].plugin_type
                            &&& exists|state: &mut C::Instance, target: &mut Writer|
                                ({
                                    &&& *state == h.instances[at].plugin_data
                                    &&& *final(state) == turns[s][k + 1].instances[at].plugin_data
                                    &&& *target == targets[s][k]
                                    &&& *final(target) == targets[s][k + 1]
                                    &&& #[trigger] call_ensures(
                                        C::update,
                                        (
                                            &h.instances[at].plugin_type.plugin_funcs,
                                            state,
                                            &self@.sessions[s].reader,
                                            target,
                                        ),
                                        (),
                                    )
                                })
                        } else {
                            turns[s][k + 1] == h && targets[s][k + 1] == targets[s][k]
                        }
                    }) by {
                    assert(turns[s] == turns_before[s] && targets[s] == targets_before[s]);
                    assert(self@.sessions[s] == earlier[s]);
                }
                assert forall|s: int, k: int|
                    #![trigger old(self)@.sessions[s].views@[k]]
                    s == i && 0 <= k < old(self)@.sessions[s].views@.len() implies ({
                        let handle = old(self)@.sessions[s].views@[k];
                        let h = turns[s][k];
                        let at = h.position(handle);
                        if h.has_view(handle) && h.instances[at].plugin_type.caps.update {
                            &&& turns[s][k + 1] == (ViewHostState {
                                instances: h.instances.update(at, turns[s][k + 1].instances[at]),
                                ..h
                            })
                            &&& turns[s][k + 1].instances[at].handle == h.instances[at].handle
                            &&& turns[s][k + 1].instances[at].plugin_type == h.instances[at].plugin_type
                            &&& exists|state: &mut C::Instance, target: &mut Writer|
                                ({
                                    &&& *state == h.instances[at].plugin_data
                                    &&& *final(state) == turns[s][k + 1].instances[at].plugin_data
                                    &&& *target == targets[s][k]
                                    &&& *final(target) == targets[s][k + 1]
                                    &&& #[trigger] call_ensures(
                                        C::update,
                                        (
                                            &h.instances[at].plugin_type.plugin_funcs,
                                            state,
                                            &self@.sessions[s].reader,
                                            target,
                                        ),
                                        (),
                                    )
                                })
                        } else {
                            turns[s][k + 1] == h && targets[s][k + 1] == targets[s][k]
                        }
                    }) by {
                    assert(earlier[i as int].views@[k] == old(self)@.sessions[s].views@[k]);
                    assert(turns[s] == trace@.0 && targets[s] == trace@.1);
                }
                assert forall|j: int|
                    0 <= j < before.instances.len() && !old(self).has_view(
                        old(view_plugins)@.instances[j].handle,
                    ) implies #[trigger] view_plugins@.instances[j] == before.instances[j] by {
                    assert(before.instances[j].handle == old(view_plugins)@.instances[j].handle);
                    assert(!old(self)@.sessions[i as int].views@.contains(
                        before.instances[j].handle,
                    ));
                }
            }
            i += 1;
        }
        proof {
            assert forall|j: int| 0 <= j < self@.sessions.len() implies (
            #[trigger] self@.sessions[j]).wf() by {
                assert(old(self)@.sessions[j].ticked(self@.sessions[j]));
            }
        }
        Ghost((stages, turns, targets))
    }

    /// One tick of every session, in the order in which they were made.
    /// Instances that are views of no session are left alone.
    ///
    /// The sessions have their ticks one after the other, each as
    /// `Session::update` says, on the host as the sessions before it left it.
    /// A session none of whose views takes part just turns its writers round,
    /// and leaves the host as it is.
    pub fn update<C: PluginCallbacks>(&mut self, view_plugins: &mut ViewPlugins<C>)
        requires
            old(self).wf(),
        ensures
            final(self).wf(),
            exists|
                stages: Seq<ViewHostState<C>>,
                turns: Seq<Seq<ViewHostState<C>>>,
                targets: Seq<Seq<Writer>>,
            |
                ({
                    &&& #[trigger] Self::stages_of(
                        old(self)@.sessions.len(),
                        old(view_plugins)@,
                        stages,
                        turns,
                        targets,
                    )
                    &&& stages.last() == final(view_plugins)@
                    &&& forall|s: int|
                        #![trigger old(self)@.sessions[s]]
                        0 <= s < old(self)@.sessions.len() ==> ({
                            let before = old(self)@.sessions[s];
                            let after = final(self)@.sessions[s];
                            &&& Session::updates_none(before.views@, stages[s]) ==> stages[s + 1] == stages[s]
                                && after.channels() == before.channels().rotate()
                            &&& Session::turns(before.views@, stages[s], turns[s], targets[s])
                            &&& turns[s].last() == stages[s + 1]
                            &&& targets[s].last() == after.writers[after.current_writer as int]
                        })
                    &&& forall|s: int, k: int|
                        #![trigger old(self)@.sessions[s].views@[k]]
                        0 <= s < old(self)@.sessions.len() && 0 <= k < old(self)@.sessions[s].views@.len() ==> ({
                            let handle = old(self)@.sessions[s].views@[k];
                            let h = turns[s][k];
                            let at = h.position(handle);
                            if h.has_view(handle) && h.instances[at].plugin_type.caps.update {
                                &&& turns[s][k + 1] == (ViewHostState {
                                    instances: h.instances.update(at, turns[s][k + 1].instances[at]),
                                    ..h
                                })
                                &&& turns[s][k + 1].instances[at].handle == h.instances[at].handle
                                &&& turns[s][k + 1].instances[at].plugin_type == h.instances[at].plugin_type
                                &&& exists|state: &mut C::Instance, target: &mut Writer|
                                    ({
                                        &&& *state == h.instances[at].plugin_data
                                        &&& *final(state) == turns[s][k + 1].instances[at].plugin_data
                                        &&& *target == targets[s][k]
                                        &&& *final(target) == targets[s][k + 1]
                                        &&& #[trigger] call_ensures(
                                            C::update,
                                            (
                                                &h.instances[at].plugin_type.plugin_funcs,
                                                state,
                                                &final(self)@.sessions[s].reader,
                                                target,
                                            ),
                                            (),
                                        )
                                    })
                            } else {
                                turns[s][k + 1] == h && targets[s][k + 1] == targets[s][k]
                            }
                        })
                }),
            final(self)@.current == old(self)@.current,
            final(self)@.sessions.len() == old(self)@.sessions.len(),
            forall|i: int|
                0 <= i < old(self)@.sessions.len() ==> (#[trigger] old(self)@.sessions[i]).ticked(
                    final(self)@.sessions[i],
                ),
            old(view_plugins)@.same_views(final(view_plugins)@),
            forall|j: int|
                0 <= j < old(view_plugins)@.instances.len() && !old(self).has_view(
                    old(view_plugins)@.instances[j].handle,
                ) ==> #[trigger] final(view_plugins)@.instances[j] == old(view_plugins)@.instances[j],
    {
        let trace = self.update_traced(view_plugins);
        proof {
            assert(Self::stages_of(
                old(self)@.sessions.len(),
                old(view_plugins)@,
                trace@.0,
                trace@.1,
                trace@.2,
            ));
        }
    }

    /// The session that the user works with, for the caller to work on.
    pub fn get_current(&mut self) -> (session: &mut Session)
        requires
            0 <= old(self)@.current < old(self)@.sessions.len(),
        ensures
            *session == old(self)@.sessions[old(self)@.current],
            final(self)@ == (SessionsView {
                sessions: old(self)@.sessions.update(old(self)@.current, *final(session)),
                ..old(self)@
            }),
    {
        let current = self.current;
        &mut self.instances[current]
    }
}

} // verus!
