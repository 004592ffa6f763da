use rustos::kernel::framebuffer::WindowEvents;
use rustos::kernel::input::{
    EventQueue, InputEvent, MousePacketParser, MouseState, INPUT_EVENT_KEYBOARD,
    INPUT_EVENT_LENGTH, INPUT_EVENT_MOUSE, INPUT_EVENT_WINDOW, WINDOW_EVENT_CLOSE,
    WINDOW_EVENT_CONFIGURE,
};

#[test]
fn event_abi_reserves_a_code_for_keyboard_input() {
    assert_eq!(core::mem::size_of::<InputEvent>(), INPUT_EVENT_LENGTH);
    let event = InputEvent { kind: INPUT_EVENT_KEYBOARD, code: u32::from(b'k'), ..InputEvent::default() };
    assert_eq!(event.code, u32::from(b'k'));
}

#[test]
fn parses_signed_three_byte_motion_and_buttons() {
    let mut parser = MousePacketParser::new();
    assert_eq!(parser.push_byte(0x19), None);
    assert_eq!(parser.push_byte(0xfe), None);
    assert_eq!(
        parser.push_byte(0x03),
        Some(InputEvent { kind: INPUT_EVENT_MOUSE, buttons: 1, dx: -2, dy: -3, wheel: 0, code: 0 })
    );
}

#[test]
fn ignores_bytes_without_a_first_packet_bit() {
    let mut parser = MousePacketParser::new();
    assert_eq!(parser.push_byte(0x00), None);
    assert_eq!(parser.push_byte(0x08), None);
    assert_eq!(parser.push_byte(0x01), None);
    assert_eq!(parser.push_byte(0x00).unwrap().kind, INPUT_EVENT_MOUSE);
    assert_eq!(parser.push_byte(0x00), None);
}

#[test]
fn drops_overflow_packets_without_leaking_motion() {
    let mut parser = MousePacketParser::new();
    assert_eq!(parser.push_byte(0x49), None);
    assert_eq!(parser.push_byte(0xff), None);
    assert_eq!(parser.push_byte(0xff), None);
}

#[test]
fn negative_y_sign_moves_the_pointer_down() {
    let mut parser = MousePacketParser::new();
    parser.push_byte(0x28);
    parser.push_byte(0x05);
    assert_eq!(
        parser.push_byte(0xfb),
        Some(InputEvent { kind: INPUT_EVENT_MOUSE, buttons: 0, dx: 5, dy: 5, wheel: 0, code: 0 })
    );
}

fn motion(dx: i32) -> InputEvent {
    InputEvent { kind: INPUT_EVENT_MOUSE, dx, ..InputEvent::default() }
}

#[test]
fn event_queue_keeps_the_newest_eight_in_order() {
    let mut queue = EventQueue::new();
    assert_eq!(queue.pop(), None);
    for dx in 0..10 {
        queue.push(motion(dx));
    }
    assert_eq!(queue.len(), 8);
    for dx in 2..10 {
        assert_eq!(queue.pop().map(|event| event.dx), Some(dx));
    }
    assert_eq!(queue.pop(), None);
    assert_eq!(queue.len(), 0);
}

#[test]
fn mouse_state_queues_decoded_packets() {
    let mut mouse = MouseState::new();
    for byte in [0x09, 0x01, 0x00, 0x08, 0x02, 0x00] {
        mouse.receive_byte(byte);
    }
    assert_eq!(mouse.queue.pop().map(|event| (event.buttons, event.dx)), Some((1, 1)));
    assert_eq!(mouse.queue.pop().map(|event| (event.buttons, event.dx)), Some((0, 2)));
    assert_eq!(mouse.queue.pop(), None);
}

#[test]
fn coalesces_consecutive_mouse_events() {
    let mut window = WindowEvents::empty();
    window.push_event(InputEvent { kind: INPUT_EVENT_MOUSE, dx: 1, ..InputEvent::default() });
    window.push_event(InputEvent { kind: INPUT_EVENT_MOUSE, dx: 2, ..InputEvent::default() });
    assert_eq!(window.event_count(), 1);
    assert_eq!(window.pop_event().map(|event| event.dx), Some(2));
}

#[test]
fn coalesces_configure_events_but_preserves_close() {
    let mut window = WindowEvents::empty();
    window.push_event(InputEvent {
        kind: INPUT_EVENT_WINDOW,
        code: WINDOW_EVENT_CONFIGURE,
        dx: 320,
        ..InputEvent::default()
    });
    window.push_event(InputEvent {
        kind: INPUT_EVENT_WINDOW,
        code: WINDOW_EVENT_CONFIGURE,
        dx: 640,
        ..InputEvent::default()
    });
    assert_eq!(window.event_count(), 1);
    assert_eq!(window.pop_event().map(|event| event.dx), Some(640));
    window.push_event(InputEvent { kind: INPUT_EVENT_WINDOW, code: WINDOW_EVENT_CLOSE, ..InputEvent::default() });
    assert_eq!(window.pop_event().map(|event| event.code), Some(WINDOW_EVENT_CLOSE));
}

#[test]
fn keyboard_events_are_never_coalesced() {
    let mut window = WindowEvents::empty();
    let key = InputEvent { kind: INPUT_EVENT_KEYBOARD, code: 7, ..InputEvent::default() };
    window.push_event(key);
    window.push_event(key);
    window.push_event(motion(1));
    window.push_event(InputEvent { kind: INPUT_EVENT_WINDOW, code: WINDOW_EVENT_CLOSE, ..InputEvent::default() });
    window.push_event(InputEvent { kind: INPUT_EVENT_WINDOW, code: WINDOW_EVENT_CLOSE, ..InputEvent::default() });
    assert_eq!(window.event_count(), 5);
}
