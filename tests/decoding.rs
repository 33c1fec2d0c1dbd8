use touchpad_draw::event::{
    canvas_extent, eviocgabs, eviocgbit, has_abs, ioc, AbsEventCode, AxisBounds, DecodeError, Event,
    EventType, InputEvent, ProbeError, TouchState, ENOTTY, INPUT_EVENT_SIZE,
};

fn record(kind: u16, code: u16, value: i32) -> InputEvent {
    InputEvent { sec: 0, usec: 0, kind, code, value }
}

fn feed_all(events: &[InputEvent]) -> Vec<Event> {
    let mut state = TouchState::new();
    let mut out = Vec::new();
    for ev in events {
        if let Some(g) = state.feed(ev).unwrap() {
            out.push(g);
        }
    }
    out
}

#[test]
fn unknown_kinds_are_protocol_violations() {
    for raw in [0x06u16, 0x0a, 0x10, 0x13, 0x16, 0x18, 0x1b, 0x1e, 0x1f, 0x20, 0x21, 0x100, 0xffff] {
        assert_eq!(EventType::from_raw(raw), Err(DecodeError::UnknownKind(raw)));
    }
}

#[test]
fn known_kinds_decode() {
    assert_eq!(EventType::from_raw(0x00), Ok(EventType::Syn));
    assert_eq!(EventType::from_raw(0x03), Ok(EventType::Abs));
    assert_eq!(EventType::from_raw(0x05), Ok(EventType::Sw));
    assert_eq!(EventType::from_raw(0x11), Ok(EventType::Led));
    assert_eq!(EventType::from_raw(0x17), Ok(EventType::FfStatus));
    assert_eq!(EventType::from_raw(0x14), Ok(EventType::Rep));
    assert_eq!(EventType::from_raw(0x15), Ok(EventType::Ff));
}

#[test]
fn decoding_is_repeatable() {
    for raw in 0u16..0x40 {
        assert_eq!(EventType::from_raw(raw), EventType::from_raw(raw));
        assert_eq!(AbsEventCode::from_raw(raw), AbsEventCode::from_raw(raw));
    }
}

#[test]
fn abs_codes_decode() {
    assert_eq!(AbsEventCode::from_raw(0x00), Ok(AbsEventCode::X));
    assert_eq!(AbsEventCode::from_raw(0x01), Ok(AbsEventCode::Y));
    assert_eq!(AbsEventCode::from_raw(0x39), Ok(AbsEventCode::MtTrackingId));
    assert_eq!(AbsEventCode::from_raw(0x3a), Ok(AbsEventCode::MtPressure));
    assert_eq!(AbsEventCode::from_raw(0x02), Err(DecodeError::UnknownAbsCode(0x02)));
}

#[test]
fn touch_then_sync_reports_halved_point() {
    let g = feed_all(&[record(3, 0, 100), record(3, 1, 200), record(0, 0, 0)]);
    assert_eq!(g, vec![Event::Touch(50, 100)]);
}

#[test]
fn missing_axis_reports_lift() {
    let g = feed_all(&[record(3, 0, 100), record(0, 0, 0)]);
    assert_eq!(g, vec![Event::FingerLifted]);
}

#[test]
fn released_contact_reports_lift() {
    let g = feed_all(&[
        record(3, 0, 100),
        record(3, 1, 200),
        record(0, 0, 0),
        record(3, 0x39, -1),
        record(0, 0, 0),
    ]);
    assert_eq!(g, vec![Event::Touch(50, 100), Event::FingerLifted]);
}

#[test]
fn held_axis_repeats_and_negative_sample_clears() {
    let g = feed_all(&[
        record(3, 0, 10),
        record(3, 1, 20),
        record(0, 0, 0),
        record(3, 0, 31),
        record(0, 0, 0),
        record(3, 1, -5),
        record(0, 0, 0),
    ]);
    assert_eq!(g, vec![Event::Touch(5, 10), Event::Touch(15, 10), Event::FingerLifted]);
}

#[test]
fn feed_errors_and_ignored_records() {
    let mut s = TouchState::new();
    assert_eq!(s.feed(&record(0x07, 0, 0)), Err(DecodeError::UnknownKind(0x07)));
    assert_eq!(s.feed(&record(3, 0x02, 0)), Err(DecodeError::UnknownAbsCode(0x02)));
    assert_eq!(s.feed(&record(1, 0x14a, 1)), Ok(None));
    assert_eq!(s.feed(&record(3, 0x39, 7)), Ok(None));
    assert_eq!(s, TouchState { x: None, y: None });
}

#[test]
fn record_decodes_little_endian() {
    let mut b = vec![0u8; INPUT_EVENT_SIZE];
    b[0] = 5;
    b[8..16].copy_from_slice(&(-2i64).to_le_bytes());
    b[16] = 3;
    b[18] = 0x39;
    b[20..24].copy_from_slice(&(-1i32).to_le_bytes());
    let ev = InputEvent::decode(&b).unwrap();
    assert_eq!(ev, InputEvent { sec: 5, usec: -2, kind: 3, code: 0x39, value: -1 });
    b[20..24].copy_from_slice(&300i32.to_le_bytes());
    assert_eq!(InputEvent::decode(&b).unwrap().value, 300);
    assert_eq!(InputEvent::decode(&b[..23]), None);
    assert_eq!(InputEvent::decode(&[]), None);
}

#[test]
fn axis_bounds_decode() {
    let mut b = vec![0u8; 20];
    b[4..8].copy_from_slice(&(-10i32).to_le_bytes());
    b[8..12].copy_from_slice(&1280i32.to_le_bytes());
    assert_eq!(AxisBounds::decode(&b), Some(AxisBounds { minimum: -10, maximum: 1280 }));
    assert_eq!(AxisBounds::decode(&b[..16]), None);
}

#[test]
fn request_numbers() {
    assert_eq!(ioc(2, 0x45, 0x23, 1), 0x8001_4523);
    assert_eq!(eviocgbit(3, 1), 0x8001_4523);
    assert_eq!(eviocgabs(0), 0x8014_4540);
    assert_eq!(eviocgabs(1), 0x8014_4541);
}

#[test]
fn capability_verdicts() {
    assert_eq!(has_abs(0, 0, 0b1000), Ok(true));
    assert_eq!(has_abs(0, 0, 0), Ok(false));
    assert_eq!(has_abs(-1, ENOTTY, 0xff), Ok(false));
    assert_eq!(has_abs(-1, 13, 0), Err(ProbeError::QueryFailed(13)));
}

#[test]
fn extents_are_halved() {
    assert_eq!(canvas_extent(1000), 500);
    assert_eq!(canvas_extent(1001), 500);
    assert_eq!(canvas_extent(0), 0);
}
