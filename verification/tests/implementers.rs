use sieri_xf::basic::BasicSink;
use sieri_xf::events::{EventData, EventDispatcher, EventSink};

/// A payload that carries a number.
struct Reading {
    value: u64,
}

impl EventData for Reading {}

/// A dispatcher that counts how often each of its accessors is called.
struct Probe {
    sink: BasicSink,
    data_calls: usize,
    target_calls: usize,
}

impl Probe {
    fn new(event_count: usize) -> Self {
        Probe { sink: BasicSink { event_count }, data_calls: 0, target_calls: 0 }
    }
}

impl EventDispatcher for Probe {
    type SinkT = BasicSink;
    type DataT = Reading;

    fn sink(&self) -> BasicSink {
        BasicSink { event_count: self.sink.event_count }
    }

    fn with_sink(&self, sink: BasicSink) -> Self {
        Probe { sink, data_calls: self.data_calls, target_calls: self.target_calls + 1 }
    }

    fn produces(&self, payload: Reading, next: Self) -> bool {
        payload.value == 7
            && next.data_calls == self.data_calls + 1
            && next.target_calls == self.target_calls
            && next.sink.event_count == self.sink.event_count
    }

    fn target(&mut self) -> &mut BasicSink {
        self.target_calls += 1;
        &mut self.sink
    }

    fn data(&mut self) -> Reading {
        self.data_calls += 1;
        Reading { value: 7 }
    }
}

#[test]
fn dispatch_calls_data_once_and_target() {
    let mut probe = Probe::new(0);
    probe.dispatch();
    assert_eq!(probe.data_calls, 1);
    assert!(probe.target_calls >= 1);
    assert_eq!(probe.target_calls, 1);
    assert_eq!(probe.sink.event_count, 1);
}

#[test]
fn each_dispatch_calls_the_accessors_anew() {
    let mut probe = Probe::new(0);
    for _ in 0..4 {
        probe.dispatch();
    }
    assert_eq!(probe.data_calls, 4);
    assert_eq!(probe.target_calls, 4);
    assert_eq!(probe.sink.event_count, 4);
}

#[test]
fn dispatch_is_data_then_one_event_through_target() {
    let mut by_dispatch = Probe::new(2);
    by_dispatch.dispatch();

    let mut by_hand = Probe::new(2);
    let payload = by_hand.data();
    assert_eq!(payload.value, 7);
    by_hand.target().process_event(payload);

    assert_eq!(by_dispatch.sink.event_count, by_hand.sink.event_count);
    assert_eq!(by_dispatch.data_calls, by_hand.data_calls);
    assert_eq!(by_dispatch.target_calls, by_hand.target_calls);
    assert_eq!(by_dispatch.sink.event_count, 3);
}

/// A payload that carries a text.
struct Note {
    text: String,
}

impl EventData for Note {}

/// A sink that is switched over by every event and counts them as well.
struct Toggle {
    on: bool,
    seen: u32,
}

impl EventSink for Toggle {
    fn ready(&self) -> bool {
        self.seen < u32::MAX
    }

    fn steps_to(&self, next: Self) -> bool {
        next.on != self.on && next.seen == self.seen + 1
    }

    fn process_event<T>(&mut self, _event: T) {
        self.on = !self.on;
        self.seen += 1;
    }
}

/// A dispatcher that sends its notes, one after the other, to a sink that it
/// has borrowed.
struct Courier<'a> {
    sink: &'a mut Toggle,
    notes: Vec<String>,
}

impl<'a> EventDispatcher for Courier<'a> {
    type SinkT = Toggle;
    type DataT = Note;

    fn sink(&self) -> Toggle {
        Toggle { on: self.sink.on, seen: self.sink.seen }
    }

    fn with_sink(&self, _sink: Toggle) -> Self {
        unreachable!("a description for proofs, never run")
    }

    fn produces(&self, payload: Note, next: Self) -> bool {
        let mut rest = self.notes.clone();
        let text = rest.pop().unwrap_or_default();
        payload.text == text && next.notes == rest
    }

    fn target(&mut self) -> &mut Toggle {
        &mut *self.sink
    }

    fn data(&mut self) -> Note {
        Note { text: self.notes.pop().unwrap_or_default() }
    }
}

#[test]
fn sink_of_another_kind_takes_its_own_steps() {
    let mut toggle = Toggle { on: false, seen: 0 };
    assert!(toggle.ready());
    toggle.process_event(Reading { value: 1 });
    assert!(toggle.on);
    assert_eq!(toggle.seen, 1);
    assert!(Toggle { on: false, seen: 0 }.steps_to(Toggle { on: toggle.on, seen: toggle.seen }));
    toggle.process_event(Note { text: String::from("again") });
    assert!(!toggle.on);
    assert_eq!(toggle.seen, 2);
}

#[test]
fn payload_type_is_the_dispatchers_own() {
    let mut toggle = Toggle { on: false, seen: 0 };
    {
        let mut courier =
            Courier { sink: &mut toggle, notes: vec![String::from("b"), String::from("a")] };
        let first: Note = courier.data();
        assert_eq!(first.text, "a");
        courier.dispatch();
        assert!(courier.notes.is_empty());
        assert_eq!(courier.sink().seen, 1);
    }
    assert!(toggle.on);
    assert_eq!(toggle.seen, 1);

    let mut probe = Probe::new(0);
    let reading: Reading = probe.data();
    assert_eq!(reading.value, 7);
}

#[test]
fn borrowed_sink_keeps_what_the_dispatcher_sent() {
    let mut toggle = Toggle { on: false, seen: 0 };
    {
        let mut courier = Courier { sink: &mut toggle, notes: Vec::new() };
        courier.dispatch();
        courier.dispatch();
        courier.dispatch();
    }
    assert!(toggle.on);
    assert_eq!(toggle.seen, 3);
}

#[test]
fn one_sink_type_serves_dispatchers_of_different_payloads() {
    let mut toggle = Toggle { on: true, seen: 5 };
    toggle.process_event(Reading { value: 3 });
    toggle.process_event(Note { text: String::new() });
    toggle.process_event(0u8);
    assert!(!toggle.on);
    assert_eq!(toggle.seen, 8);
}
