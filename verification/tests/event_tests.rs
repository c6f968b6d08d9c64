use xentrace_parser::Event;
use xentrace_parser::EventCode;
use xentrace_parser::TRC_TRACE_CPU_CHANGE;

#[test]
fn event_new() {
    let event = Event::new(TRC_TRACE_CPU_CHANGE, 0, vec![]);
    assert_eq!(event, Event::new(TRC_TRACE_CPU_CHANGE, 0, vec![]));
}

#[test]
fn event_tsc() {
    let event = Event::new(TRC_TRACE_CPU_CHANGE, 1382371621213, vec![]);
    assert_eq!(event.get_tsc(), 1382371621213);
}

#[test]
fn event_extra() {
    let event = Event::new(TRC_TRACE_CPU_CHANGE, 0, vec![1, 3, 5]);
    assert_eq!(event.get_extra().len(), 3);
    assert_eq!(event.get_extra()[2], 5);
}

#[test]
fn ecode_full_equality_test() {
    let ecode1 = EventCode::from(0x00015003);
    let ecode2 = EventCode::from(0x00015003);

    assert_eq!(ecode1, ecode2);
    assert_eq!(ecode1.main(), ecode2.main());
    assert_eq!(ecode1.sub(), ecode2.sub());
    assert_eq!(ecode1.minor(), ecode2.minor());
}

#[test]
fn ecode_equality_test() {
    let ecode1 = EventCode::from(0x00015003);
    let ecode2 = EventCode::from(0x01015003);

    assert_ne!(ecode1, ecode2);
    assert_ne!(ecode1.main(), ecode2.main());

    assert_eq!(ecode1.sub(), ecode2.sub());
    assert_eq!(ecode1.minor(), ecode2.minor());
}

#[test]
fn equality_test() {
    let event1 = Event::new(0x00015003, 0, vec![]);
    let event2 = Event::new(0x00015003, 0, vec![]);

    assert_eq!(event1, event2);
}

#[test]
fn ordinariness_test() {
    let mut events = vec![
        Event::new(0x00015004, 4, vec![]),
        Event::new(0x00015001, 0, vec![]),
        Event::new(0x00015003, 98, vec![]),
    ];

    events.sort_unstable_by_key(|e| e.get_tsc());

    let first_event = Event::new(0x00015001, 0, vec![]);
    let last_event = &events[2];

    assert_eq!(0x00015003u32, last_event.code.into());
    assert_eq!(u32::from(first_event.code), 0x00015001);
}

#[test]
fn ecode_field_values() {
    let ecode = EventCode::from_u32(0x00015003);
    assert_eq!(ecode.value(), 0x00015003);
    assert_eq!(ecode.into_u32(), 0x00015003);
    assert_eq!(ecode.main(), 0x001);
    assert_eq!(ecode.sub(), 0x5);
    assert_eq!(ecode.minor(), 0x003);
    assert_eq!(ecode.get_main(), 0x001);
    assert_eq!(ecode.get_sub(), 0x5);
    assert_eq!(ecode.get_minor(), 0x003);
}

#[test]
fn ecode_round_trip() {
    for code in [0u32, 1, 0x00015003, 0x0FFFFFFF, 0xFFFFFFFF] {
        assert_eq!(EventCode::from_u32(code).into_u32(), code);
    }
}

#[test]
fn event_extra_slots() {
    let event = Event::new(0x00015003, 7, vec![10, 20]);
    let slots = event.extra();
    assert_eq!(slots.len(), 7);
    assert_eq!(slots[0], Some(10));
    assert_eq!(slots[1], Some(20));
    assert_eq!(slots[2], None);
    assert_eq!(slots[6], None);
    assert_eq!(event.get_extra_size(), 2);
}

#[test]
fn event_extra_full() {
    let event = Event::new(0x00015003, 0, vec![1, 2, 3, 4, 5, 6, 7]);
    assert_eq!(event.get_extra_size(), 7);
    assert_eq!(event.get_extra(), vec![1, 2, 3, 4, 5, 6, 7]);
}

#[test]
fn event_accessors() {
    let event = Event::new(0x00021F0F, 42, vec![9]);
    assert_eq!(event.code(), EventCode::from_u32(0x00021F0F));
    assert_eq!(event.get_code(), event.code());
    assert_eq!(event.tsc(), 42);
    assert_eq!(event.get_tsc(), 42);
}
