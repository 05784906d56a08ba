use prodbg::imgui_sys::Imgui;
use prodbg::plugin_io::{get_data, get_loader_funcs, get_writer_funcs};
use prodbg::read_write::{Event, Reader, ReaderWrapper, Writer, WriterWrapper};

fn event_keys(events: &[Event]) -> Vec<u16> {
    events.iter().map(|e| e.key).collect()
}

#[test]
fn new_event_has_no_payload() {
    let event = Event::new(0x44);
    assert_eq!(event.key, 0x44);
    assert!(event.payload.is_empty());
}

#[test]
fn duplicate_copies_key_and_payload() {
    let event = Event { key: 3, payload: vec![1, 2, 3] };
    let copy = event.duplicate();
    assert_eq!(copy, event);
    assert_eq!(copy.payload, vec![1, 2, 3]);
}

#[test]
fn new_writer_holds_nothing() {
    let writer = Writer::new();
    assert!(writer.snapshot().is_empty());
    let writer = WriterWrapper::create_writer();
    assert!(writer.snapshot().is_empty());
}

#[test]
fn event_is_seen_only_after_it_is_ended() {
    let mut writer = Writer::new();
    writer.event_begin(1);
    assert!(writer.snapshot().is_empty());
    writer.write_u8(10);
    writer.write_u8(20);
    assert!(writer.snapshot().is_empty());
    writer.event_end();
    assert_eq!(writer.snapshot(), vec![Event { key: 1, payload: vec![10, 20] }]);
}

#[test]
fn event_end_without_begin_changes_nothing() {
    let mut writer = Writer::new();
    writer.event_end();
    assert!(writer.snapshot().is_empty());
    writer.write(Event::new(1));
    writer.event_end();
    assert_eq!(event_keys(&writer.snapshot()), vec![1]);
}

#[test]
fn byte_without_event_is_dropped() {
    let mut writer = Writer::new();
    writer.write_u8(1);
    writer.event_begin(2);
    writer.event_end();
    assert_eq!(writer.snapshot(), vec![Event::new(2)]);
}

#[test]
fn begin_gives_up_an_event_that_was_not_ended() {
    let mut writer = Writer::new();
    writer.event_begin(1);
    writer.write_u8(5);
    writer.event_begin(2);
    writer.event_end();
    assert_eq!(writer.snapshot(), vec![Event::new(2)]);
}

#[test]
fn write_keeps_the_event_that_was_begun() {
    let mut writer = Writer::new();
    writer.event_begin(1);
    writer.write_u8(5);
    writer.write(Event::new(2));
    writer.event_end();
    assert_eq!(writer.snapshot(), vec![Event::new(2), Event { key: 1, payload: vec![5] }]);
}

#[test]
fn events_keep_the_order_of_writing() {
    let mut writer = Writer::new();
    for key in [4u16, 2, 9, 2] {
        writer.event_begin(key);
        writer.event_end();
    }
    assert_eq!(event_keys(&writer.snapshot()), vec![4, 2, 9, 2]);
}

#[test]
fn reset_forgets_everything() {
    let mut writer = Writer::new();
    writer.write(Event::new(1));
    writer.event_begin(2);
    writer.reset();
    writer.event_end();
    assert!(writer.snapshot().is_empty());
}

#[test]
fn new_reader_holds_nothing() {
    let mut reader = Reader::new();
    assert!(reader.read().is_empty());
    assert_eq!(reader.get_event(), None);
    let mut reader = ReaderWrapper::create_reader();
    assert!(reader.read().is_empty());
    assert_eq!(reader.get_event(), None);
}

#[test]
fn get_event_walks_through_the_events_once() {
    let mut writer = Writer::new();
    writer.write(Event::new(1));
    writer.write(Event::new(2));
    let mut reader = Reader::new();
    ReaderWrapper::init_from_writer(&mut reader, &writer);
    assert_eq!(reader.get_event(), Some(1));
    assert_eq!(reader.get_event(), Some(2));
    assert_eq!(reader.get_event(), None);
    assert_eq!(reader.get_event(), None);
    assert_eq!(event_keys(&reader.read()), vec![1, 2]);
}

#[test]
fn init_from_writer_starts_over() {
    let mut writer = Writer::new();
    writer.write(Event::new(1));
    let mut reader = Reader::new();
    ReaderWrapper::init_from_writer(&mut reader, &writer);
    assert_eq!(reader.get_event(), Some(1));
    assert_eq!(reader.get_event(), None);
    writer.write(Event::new(2));
    ReaderWrapper::init_from_writer(&mut reader, &writer);
    assert_eq!(reader.get_event(), Some(1));
    assert_eq!(reader.get_event(), Some(2));
}

#[test]
fn reader_does_not_follow_the_writer() {
    let mut writer = Writer::new();
    writer.write(Event::new(1));
    let mut reader = Reader::new();
    ReaderWrapper::init_from_writer(&mut reader, &writer);
    writer.write(Event::new(2));
    writer.reset();
    assert_eq!(reader.read(), vec![Event::new(1)]);
}

#[test]
fn saved_strings_come_out_in_order() {
    let mut writer = get_writer_funcs();
    writer.write_string("one");
    writer.write_string("two");
    assert_eq!(get_data(&mut writer), vec!["one".to_string(), "two".to_string()]);
    assert!(get_data(&mut writer).is_empty());
}

#[test]
fn loader_hands_out_the_strings_once() {
    let data = vec!["a".to_string(), "b".to_string()];
    let mut loader = get_loader_funcs(&data);
    assert_eq!(loader.read_string(), Some("a".to_string()));
    assert_eq!(loader.read_string(), Some("b".to_string()));
    assert_eq!(loader.read_string(), None);
    assert_eq!(data.len(), 2);
}

#[test]
fn loader_over_nothing_is_at_its_end() {
    let mut loader = get_loader_funcs(&Vec::new());
    assert_eq!(loader.read_string(), None);
}

#[test]
fn popup_is_opened_only_when_asked_for() {
    let mut state = Imgui::new();
    assert_eq!(state.has_showed_popup(), 0);
    assert!(!state.begin_popup_context());
    assert_eq!(state.has_showed_popup(), 0);
    state.mark_show_popup(true);
    assert_eq!(state.has_showed_popup(), 0);
    assert!(state.begin_popup_context());
    assert_eq!(state.has_showed_popup(), 1);
}

#[test]
fn popup_state_is_reset_by_init_state() {
    let mut state = Imgui::new();
    state.mark_show_popup(true);
    assert!(state.begin_popup_context());
    state.mark_show_popup(false);
    assert_eq!(state.has_showed_popup(), 1);
    assert!(!state.begin_popup_context());
    state.init_state();
    assert_eq!(state.has_showed_popup(), 0);
    state.mark_show_popup(true);
    state.init_state();
    assert!(state.begin_popup_context());
}
