use std::rc::Rc;

use prodbg::backend_plugin::BackendPlugins;
use prodbg::plugin::{Capabilities, Lib, Plugin, PluginCallbacks};
use prodbg::plugin_io::{LoadState, SaveState};
use prodbg::read_write::{Event, Reader, ReaderWrapper, Writer};
use prodbg::session::{ConnectionSettings, Session, Sessions};
use prodbg::view_plugins::{ViewHandle, ViewPlugins};

/// A view that writes back what it reads and remembers what it has read.
struct Echo;

struct EchoState {
    seen: Vec<Vec<u16>>,
}

impl PluginCallbacks for Echo {
    type Instance = EchoState;

    fn create_instance(&self) -> Option<EchoState> {
        Some(EchoState { seen: Vec::new() })
    }

    fn update(&self, instance: &mut EchoState, reader: &Reader, writer: &mut Writer) {
        let events = reader.read();
        instance.seen.push(events.iter().map(|e| e.key).collect());
        for event in events {
            writer.write(event);
        }
    }

    fn save_state(&self, _instance: &EchoState, _writer: &mut SaveState) {}

    fn load_state(&self, _instance: &mut EchoState, _loader: &mut LoadState) {}

    fn register_menu(&self, _instance: &mut EchoState, _menu_id_offset: u32) -> Option<Box<minifb::Menu>> {
        None
    }
}

fn echo_type(name: &str, update: bool) -> Rc<Plugin<Echo>> {
    Rc::new(Plugin {
        name: name.to_string(),
        category: "ProDBG View".to_string(),
        lib: Lib(1),
        caps: Capabilities {
            create_instance: true,
            update,
            save_state: false,
            load_state: false,
            register_menu: false,
        },
        plugin_funcs: Echo,
    })
}

fn keys(events: &[Event]) -> Vec<u16> {
    events.iter().map(|e| e.key).collect()
}

#[test]
fn create_session() {
    let _session = Session::new();
}

#[test]
fn write_simple_event() {
    let mut session = Session::new();

    session.writers[0].event_begin(0x44);
    session.writers[0].event_end();

    ReaderWrapper::init_from_writer(&mut session.reader, &session.writers[0]);

    assert_eq!(session.reader.get_event().unwrap(), 0x44);
}

#[test]
fn new_session_is_empty() {
    let session = Session::new();
    assert!(session.views.is_empty());
    assert_eq!(session.current_writer, 0);
    assert!(session.read().is_empty());
    assert!(session.writers[0].snapshot().is_empty());
    assert!(session.writers[1].snapshot().is_empty());
}

#[test]
fn echo_reads_in_second_tick_what_was_written_in_first() {
    let mut views: ViewPlugins<Echo> = ViewPlugins::new();
    views.add_plugin(&echo_type("Echo", true));
    let handle = views.create_instance(&"Echo".to_string()).unwrap();

    let mut session = Session::new();
    session.add_view(handle);

    session.update(&mut views);
    session.write(Event::new(0x44));
    session.update(&mut views);

    let seen = &views.get_view(handle).unwrap().plugin_data.seen;
    assert_eq!(seen.len(), 2);
    assert_eq!(seen[0], Vec::<u16>::new());
    assert_eq!(seen[1], vec![0x44]);
    assert_eq!(session.read(), vec![Event::new(0x44)]);
}

#[test]
fn echo_writes_back_what_it_reads() {
    let mut views: ViewPlugins<Echo> = ViewPlugins::new();
    views.add_plugin(&echo_type("Echo", true));
    let handle = views.create_instance(&"Echo".to_string()).unwrap();
    let mut session = Session::new();
    session.add_view(handle);

    session.update(&mut views);
    session.write(Event::new(7));
    session.update(&mut views);
    session.update(&mut views);

    assert_eq!(keys(&session.read()), vec![7]);
    let seen = &views.get_view(handle).unwrap().plugin_data.seen;
    assert_eq!(seen[2], vec![7]);
}

#[test]
fn writes_are_read_one_tick_later_in_order() {
    let mut views: ViewPlugins<Echo> = ViewPlugins::new();
    let mut session = Session::new();

    session.update(&mut views);
    let before = keys(&session.read());
    session.write(Event::new(1));
    session.write(Event { key: 2, payload: vec![9, 8] });
    session.write(Event::new(3));
    assert_eq!(keys(&session.read()), before);

    session.update(&mut views);
    assert_eq!(
        session.read(),
        vec![Event::new(1), Event { key: 2, payload: vec![9, 8] }, Event::new(3)]
    );
}

#[test]
fn reading_twice_gives_the_same_events() {
    let mut views: ViewPlugins<Echo> = ViewPlugins::new();
    let mut session = Session::new();
    session.write(Event::new(5));
    session.update(&mut views);
    assert_eq!(session.read(), session.read());
    assert_eq!(keys(&session.read()), vec![5]);
}

#[test]
fn tick_without_writes_reads_nothing() {
    let mut views: ViewPlugins<Echo> = ViewPlugins::new();
    let mut session = Session::new();
    session.write(Event::new(5));
    session.update(&mut views);
    assert_eq!(keys(&session.read()), vec![5]);
    session.update(&mut views);
    assert!(session.read().is_empty());
    session.update(&mut views);
    assert!(session.read().is_empty());
}

#[test]
fn update_turns_the_writers_round_once() {
    let mut views: ViewPlugins<Echo> = ViewPlugins::new();
    let mut session = Session::new();
    assert_eq!(session.current_writer, 0);
    session.update(&mut views);
    assert_eq!(session.current_writer, 1);
    session.update(&mut views);
    assert_eq!(session.current_writer, 0);
}

#[test]
fn rotate_empties_the_new_write_target() {
    let mut session = Session::new();
    session.write(Event::new(1));
    session.rotate();
    session.write(Event::new(2));
    session.rotate();
    assert_eq!(session.current_writer, 0);
    assert!(session.writers[0].snapshot().is_empty());
    assert_eq!(keys(&session.writers[1].snapshot()), vec![2]);
    assert_eq!(keys(&session.read()), vec![2]);
}

#[test]
fn rotate_does_not_show_an_event_that_was_not_ended() {
    let mut session = Session::new();
    session.writers[0].event_begin(1);
    session.writers[0].event_end();
    session.writers[0].event_begin(2);
    session.rotate();
    assert_eq!(keys(&session.read()), vec![1]);
}

#[test]
fn view_unknown_to_the_host_is_passed_over() {
    let mut views: ViewPlugins<Echo> = ViewPlugins::new();
    views.add_plugin(&echo_type("Echo", true));
    let known = views.create_instance(&"Echo".to_string()).unwrap();
    let mut session = Session::new();
    session.add_view(ViewHandle(77));
    session.add_view(known);
    session.write(Event::new(1));

    session.update(&mut views);

    assert_eq!(views.instances.len(), 1);
    assert_eq!(views.instances[0].plugin_data.seen, vec![vec![1]]);
}

#[test]
fn view_without_update_is_passed_over() {
    let mut views: ViewPlugins<Echo> = ViewPlugins::new();
    views.add_plugin(&echo_type("Still", false));
    let handle = views.create_instance(&"Still".to_string()).unwrap();
    let mut session = Session::new();
    session.add_view(handle);
    session.write(Event::new(1));

    session.update(&mut views);
    session.update(&mut views);

    assert!(views.instances[0].plugin_data.seen.is_empty());
    assert!(session.read().is_empty());
}

#[test]
fn instances_of_other_sessions_are_left_alone() {
    let mut views: ViewPlugins<Echo> = ViewPlugins::new();
    views.add_plugin(&echo_type("Echo", true));
    let mine = views.create_instance(&"Echo".to_string()).unwrap();
    let other = views.create_instance(&"Echo".to_string()).unwrap();
    let mut session = Session::new();
    session.add_view(mine);

    session.update(&mut views);

    assert_eq!(views.get_view(mine).unwrap().plugin_data.seen.len(), 1);
    assert!(views.get_view(other).unwrap().plugin_data.seen.is_empty());
}

#[test]
fn all_views_of_a_session_read_the_same_events() {
    let mut views: ViewPlugins<Echo> = ViewPlugins::new();
    views.add_plugin(&echo_type("Echo", true));
    let a = views.create_instance(&"Echo".to_string()).unwrap();
    let b = views.create_instance(&"Echo".to_string()).unwrap();
    let mut session = Session::new();
    session.add_view(a);
    session.add_view(b);
    session.write(Event::new(4));

    session.update(&mut views);

    assert_eq!(views.get_view(a).unwrap().plugin_data.seen, vec![vec![4]]);
    assert_eq!(views.get_view(b).unwrap().plugin_data.seen, vec![vec![4]]);
    session.update(&mut views);
    assert_eq!(keys(&session.read()), vec![4, 4]);
}

#[test]
fn add_view_keeps_the_order() {
    let mut session = Session::new();
    session.add_view(ViewHandle(3));
    session.add_view(ViewHandle(1));
    assert_eq!(session.views, vec![ViewHandle(3), ViewHandle(1)]);
}

#[test]
fn start_remote_and_start_local_do_nothing_yet() {
    let backends: BackendPlugins<Echo> = BackendPlugins::new();
    let settings = ConnectionSettings { address: "127.0.0.1" };
    Session::start_remote::<Echo>(&backends, &settings);
    Session::start_local("a.out", 0);
    assert_eq!(settings.address, "127.0.0.1");
    assert!(backends.instances.is_empty());
}

#[test]
fn sessions_tick_every_session() {
    let mut views: ViewPlugins<Echo> = ViewPlugins::new();
    let mut sessions = Sessions::new();
    sessions.create_instance();
    sessions.create_instance();
    sessions.get_current().write(Event::new(9));

    sessions.update(&mut views);

    let first = sessions.get_current();
    assert_eq!(first.current_writer, 1);
    assert_eq!(keys(&first.read()), vec![9]);
    sessions.update(&mut views);
    assert_eq!(sessions.get_current().current_writer, 0);
    assert!(sessions.get_current().read().is_empty());
}

#[test]
fn sessions_are_apart() {
    let mut views: ViewPlugins<Echo> = ViewPlugins::new();
    views.add_plugin(&echo_type("Echo", true));
    let handle = views.create_instance(&"Echo".to_string()).unwrap();
    let mut sessions = Sessions::new();
    sessions.create_instance();
    sessions.create_instance();
    sessions.get_current().write(Event::new(9));
    sessions.get_current().add_view(handle);

    sessions.update(&mut views);

    assert_eq!(views.instances[0].plugin_data.seen, vec![vec![9]]);
}

#[test]
fn write_keeps_the_begun_event_and_the_other_writer() {
    let mut session = Session::new();
    session.writers[1].write(Event::new(8));
    session.writers[0].event_begin(3);
    session.write(Event::new(4));
    assert_eq!(keys(&session.writers[1].snapshot()), vec![8]);
    session.writers[0].event_end();
    assert_eq!(keys(&session.writers[0].snapshot()), vec![4, 3]);
}

#[test]
fn views_after_an_unknown_one_are_still_updated_in_order() {
    let mut views: ViewPlugins<Echo> = ViewPlugins::new();
    views.add_plugin(&echo_type("Echo", true));
    let a = views.create_instance(&"Echo".to_string()).unwrap();
    let b = views.create_instance(&"Echo".to_string()).unwrap();
    let mut session = Session::new();
    session.add_view(a);
    session.add_view(ViewHandle(50));
    session.add_view(b);
    session.write(Event::new(6));

    session.update(&mut views);

    assert_eq!(views.get_view(a).unwrap().plugin_data.seen, vec![vec![6]]);
    assert_eq!(views.get_view(b).unwrap().plugin_data.seen, vec![vec![6]]);
    assert_eq!(session.views, vec![a, ViewHandle(50), b]);
    session.update(&mut views);
    assert_eq!(keys(&session.read()), vec![6, 6]);
}
