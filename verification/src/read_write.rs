//! The event channel: an ordered stream of events that one side writes and
//! the other side reads one tick later.

use vstd::prelude::*;

verus! {

/// One event of a channel: a numeric key and the bytes that go with it.
#[derive(Debug, PartialEq, Eq)]
pub struct Event {
    pub key: u16,
    pub payload: Vec<u8>,
}

/// What an [`Event`] stands for in contracts.
pub struct EventView {
    pub key: u16,
    pub payload: Seq<u8>,
}

impl View for Event {
    type V = EventView;

    open spec fn view(&self) -> EventView {
        EventView { key: self.key, payload: self.payload@ }
    }
}

/// The views of a sequence of events, in the same order.
pub open spec fn events_view(events: Seq<Event>) -> Seq<EventView> {
    events.map_values(|e: Event| e@)
}

impl Event {
    /// An event with the given key and no payload.
    pub fn new(key: u16) -> (event: Event)
        ensures
            event@ == (EventView { key, payload: Seq::empty() }),
    {
        Event { key, payload: Vec::new() }
    }

    /// A copy of this event.
    pub fn duplicate(&self) -> (event: Event)
        ensures
            event@ == self@,
    {
        let mut payload: Vec<u8> = Vec::new();
        let n = self.payload.len();
        let mut i: usize = 0;
        while i < n
            invariant
                n == self.payload@.len(),
                i <= n,
                payload@ == self.payload@.subrange(0, i as int),
            decreases n - i,
        {
            payload.push(self.payload[i]);
            i += 1;
        }
        proof {
            assert(self.payload@.subrange(0, n as int) == self.payload@);
        }
        Event { key: self.key, payload }
    }
}

/// Copies of `source`'s events, in the same order.
fn copy_events(source: &Vec<Event>) -> (events: Vec<Event>)
    ensures
        events_view(events@) == events_view(source@),
{
    let mut events: Vec<Event> = Vec::new();
    let n = source.len();
    let mut i: usize = 0;
    while i < n
        invariant
            n == source@.len(),
            i <= n,
            events_view(events@) == events_view(source@).subrange(0, i as int),
        decreases n - i,
    {
        let e = source[i].duplicate();
        proof {
            assert(events_view(source@).subrange(0, i + 1) == events_view(source@).subrange(
                0,
                i as int,
            ).push(source@[i as int]@));
        }
        events.push(e);
        i += 1;
    }
    events
}

/// What a [`Writer`] stands for in contracts: the events written so far, in
/// the order in which they were completed, and the event that has been begun
/// and not yet ended, if there is one.
pub struct WriterView {
    pub events: Seq<EventView>,
    pub open: Option<EventView>,
}

/// The writing end of a channel. Events are appended, never changed.
#[derive(Debug)]
pub struct Writer {
    events: Vec<Event>,
    open: Option<Event>,
}

impl View for Writer {
    type V = WriterView;

    closed spec fn view(&self) -> WriterView {
        WriterView {
            events: events_view(self.events@),
            open: match self.open {
                Some(e) => Some(e@),
                None => None,
            },
        }
    }
}

impl Writer {
    /// A writer that holds no event.
    pub fn new() -> (writer: Writer)
        ensures
            writer@ == (WriterView { events: Seq::empty(), open: None }),
    {
        let writer = Writer { events: Vec::new(), open: None };
        proof {
            assert(events_view(writer.events@) == Seq::<EventView>::empty());
        }
        writer
    }

    /// Begins an event with the given key. An event that was begun and not
    /// ended is given up: readers never see a part of an event.
    pub fn event_begin(&mut self, event: u16)
        ensures
            final(self)@.events == old(self)@.events,
            final(self)@.open == Some((EventView { key: event, payload: Seq::empty() })),
    {
        self.open = Some(Event::new(event));
    }

    /// Adds one byte to the payload of the event that was begun. Without such
    /// an event the byte has nowhere to go and is dropped.
    pub fn write_u8(&mut self, data: u8)
        ensures
            final(self)@.events == old(self)@.events,
            final(self)@.open == (match old(self)@.open {
                Some(e) => Some(EventView { key: e.key, payload: e.payload.push(data) }),
                None => None,
            }),
    {
        match self.open.take() {
            Some(e) => {
                let mut e = e;
                e.payload.push(data);
                self.open = Some(e);
            },
            None => {},
        }
    }

    /// Ends the event that was begun, which makes it the last event of the
    /// channel. Without such an event nothing changes.
    pub fn event_end(&mut self)
        ensures
            final(self)@ == (match old(self)@.open {
                Some(e) => WriterView { events: old(self)@.events.push(e), open: None },
                None => old(self)@,
            }),
    {
        match self.open.take() {
            Some(e) => {
                proof {
                    assert(events_view(self.events@.push(e)) == events_view(self.events@).push(e@));
                }
                self.events.push(e);
            },
            None => {},
        }
    }

    /// Appends a whole event. An event that was begun stays as it is.
    pub fn write(&mut self, event: Event)
        ensures
            final(self)@.events == old(self)@.events.push(event@),
            final(self)@.open == old(self)@.open,
    {
        self.events.push(event);
    }

    /// Forgets every event, also one that was begun.
    pub fn reset(&mut self)
        ensures
            final(self)@ == (WriterView { events: Seq::empty(), open: None }),
    {
        self.events.clear();
        self.open = None;
        proof {
            assert(events_view(self.events@) == Seq::<EventView>::empty());
        }
    }

    /// Copies of the completed events, in the order in which they were written.
    pub fn snapshot(&self) -> (events: Vec<Event>)
        ensures
            events_view(events@) == self@.events,
    {
        copy_events(&self.events)
    }
}

/// What a [`Reader`] stands for in contracts: the events it holds and how
/// many of them `get_event` has handed out.
pub struct ReaderView {
    pub events: Seq<EventView>,
    pub cursor: nat,
}

/// The reading end of a channel: an unchanging copy of what a writer held
/// when the reader was last filled from it.
#[derive(Debug)]
pub struct Reader {
    events: Vec<Event>,
    cursor: usize,
}

impl View for Reader {
    type V = ReaderView;

    closed spec fn view(&self) -> ReaderView {
        ReaderView { events: events_view(self.events@), cursor: self.cursor as nat }
    }
}

impl Reader {
    /// A reader that holds no event.
    pub fn new() -> (reader: Reader)
        ensures
            reader@ == (ReaderView { events: Seq::empty(), cursor: 0 }),
    {
        let reader = Reader { events: Vec::new(), cursor: 0 };
        proof {
            assert(events_view(reader.events@) == Seq::<EventView>::empty());
        }
        reader
    }

    /// The key of the next event, or `None` after the last one. Each call
    /// moves on by one event.
    pub fn get_event(&mut self) -> (key: Option<u16>)
        ensures
            final(self)@.events == old(self)@.events,
            old(self)@.cursor < old(self)@.events.len() ==> key == Some(
                old(self)@.events[old(self)@.cursor as int].key,
            ) && final(self)@.cursor == old(self)@.cursor + 1,
            old(self)@.cursor >= old(self)@.events.len() ==> key.is_none() && final(self)@.cursor
                == old(self)@.cursor,
    {
        if self.cursor < self.events.len() {
            let key = self.events[self.cursor].key;
            self.cursor += 1;
            Some(key)
        } else {
            None
        }
    }

    /// Copies of all events of the reader, in the order in which they were
    /// written. Reading takes nothing away: every call gives the same events.
    pub fn read(&self) -> (events: Vec<Event>)
        ensures
            events_view(events@) == self@.events,
    {
        copy_events(&self.events)
    }
}

/// Makes the readers that a session hands to its plugins.
pub struct ReaderWrapper {}

impl ReaderWrapper {
    /// A reader that holds no event.
    pub fn create_reader() -> (reader: Reader)
        ensures
            reader@ == (ReaderView { events: Seq::empty(), cursor: 0 }),
    {
        Reader::new()
    }

    /// Makes `reader` show what `writer` holds now: its completed events, from
    /// the first on. An event that `writer` has begun and not ended is not
    /// taken.
    pub fn init_from_writer(reader: &mut Reader, writer: &Writer)
        ensures
            final(reader)@ == (ReaderView { events: writer@.events, cursor: 0 }),
    {
        reader.events = writer.snapshot();
        reader.cursor = 0;
    }
}

/// Makes the writers that a session hands to its plugins.
pub struct WriterWrapper {}

impl WriterWrapper {
    /// A writer that holds no event.
    pub fn create_writer() -> (writer: Writer)
        ensures
            writer@ == (WriterView { events: Seq::empty(), open: None }),
    {
        Writer::new()
    }
}

} // verus!
