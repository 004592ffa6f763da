use rustos::kernel::framebuffer::{
    valid_window_geometry, window_index, GraphicsInfo, GraphicsRect, GraphicsWindow, WindowManager,
};
use rustos::kernel::input::{
    InputEvent, INPUT_EVENT_KEYBOARD, INPUT_EVENT_MOUSE, INPUT_EVENT_WINDOW, WINDOW_EVENT_CLOSE,
    WINDOW_EVENT_CONFIGURE,
};

const SCREEN: Option<GraphicsInfo> =
    Some(GraphicsInfo { width: 1280, height: 800, stride: 1280, bytes_per_pixel: 4 });
const SHELL: u32 = 7;
const OTHER: u32 = 9;

fn geometry(x: u32, y: u32, width: u32, height: u32) -> GraphicsWindow {
    GraphicsWindow { x, y, width, height }
}

fn mouse(buttons: u32) -> InputEvent {
    InputEvent { kind: INPUT_EVENT_MOUSE, buttons, dx: 1, dy: 1, wheel: 0, code: 0 }
}

fn key(code: u32) -> InputEvent {
    InputEvent { kind: INPUT_EVENT_KEYBOARD, buttons: 0, dx: 0, dy: 0, wheel: 0, code }
}

#[test]
fn accepts_only_windows_that_fit_the_screen() {
    assert!(valid_window_geometry(geometry(0, 0, 1280, 800), SCREEN));
    assert!(!valid_window_geometry(geometry(1, 0, 1280, 800), SCREEN));
    assert!(!valid_window_geometry(geometry(0, 0, 0, 10), SCREEN));
    assert!(!valid_window_geometry(geometry(0, 0, 10, 10), None));
    let big = Some(GraphicsInfo { width: 8192, height: 8192, stride: 8192, bytes_per_pixel: 4 });
    assert!(!valid_window_geometry(geometry(0, 0, 4097, 10), big));
    assert!(!valid_window_geometry(geometry(0, 0, 4096, 2048), big));
    assert!(valid_window_geometry(geometry(0, 0, 2048, 2048), big));
    assert_eq!(window_index(0), None);
    assert_eq!(window_index(4), Some(3));
    assert_eq!(window_index(5), None);
}

#[test]
fn creates_windows_in_free_slots_for_the_graphics_owner() {
    let mut windows = WindowManager::new();
    assert_eq!(windows.create_window(0, SCREEN, SHELL, geometry(0, 0, 100, 100)), None);
    assert_eq!(windows.create_window(SHELL, SCREEN, 0, geometry(0, 0, 100, 100)), None);
    assert_eq!(windows.create_window(SHELL, SCREEN, SHELL, geometry(1200, 0, 100, 100)), None);
    for expected in 1..=4 {
        assert_eq!(windows.create_window(SHELL, SCREEN, SHELL, geometry(0, 0, 100, 100)), Some(expected));
    }
    assert_eq!(windows.create_window(SHELL, SCREEN, SHELL, geometry(0, 0, 100, 100)), None);
    assert_eq!(windows.order(), &[0, 1, 2, 3]);
    assert!(windows.destroy_window(SHELL, 2));
    assert_eq!(windows.order(), &[0, 2, 3]);
    assert_eq!(windows.create_window(SHELL, SCREEN, OTHER, geometry(10, 10, 50, 50)), Some(2));
    assert_eq!(windows.order(), &[0, 2, 3, 1]);
    assert_eq!(windows.window(1).owner, OTHER);
}

#[test]
fn draws_only_inside_a_window_its_owner_holds() {
    let mut windows = WindowManager::new();
    let id = windows.create_window(SHELL, SCREEN, SHELL, geometry(100, 100, 200, 100)).unwrap();
    let rect = GraphicsRect { x: 10, y: 10, width: 190, height: 90, color: 0xff0000 };
    assert!(windows.window_fill_rect(SHELL, id, rect));
    assert!(!windows.window_fill_rect(OTHER, id, rect));
    assert!(!windows.window_fill_rect(SHELL, id, GraphicsRect { width: 191, ..rect }));
    assert!(!windows.window_fill_rect(SHELL, id, GraphicsRect { width: 0, ..rect }));
    assert!(!windows.window_fill_rect(SHELL, 3, rect));
    for _ in 1..24 {
        assert!(windows.window_fill_rect(SHELL, id, rect));
    }
    assert!(!windows.window_fill_rect(SHELL, id, rect));
    assert_eq!(windows.window(0).rects.len(), 24);

    assert!(windows.window_draw_text(SHELL, id, 4, 4, 0xffffff, b"hello"));
    assert!(!windows.window_draw_text(SHELL, id, 200, 4, 0xffffff, b"hello"));
    assert!(!windows.window_draw_text(SHELL, id, 4, 4, 0xffffff, &[b'x'; 97]));
    assert_eq!(windows.window(0).texts[0].bytes, b"hello".to_vec());

    assert!(windows.present_window(SHELL, id));
    assert!(windows.window(0).presented);
    assert_eq!(windows.presented_windows(), vec![0]);
    assert!(windows.clear_window(SHELL, id));
    assert!(windows.window(0).rects.is_empty() && windows.window(0).texts.is_empty());
    assert!(!windows.window(0).presented);
    assert!(windows.presented_windows().is_empty());
    assert!(!windows.clear_window(OTHER, id));
}

#[test]
fn focus_raises_and_keyboard_input_follows_it() {
    let mut windows = WindowManager::new();
    let first = windows.create_window(SHELL, SCREEN, SHELL, geometry(0, 0, 100, 100)).unwrap();
    let second = windows.create_window(SHELL, SCREEN, SHELL, geometry(0, 0, 100, 100)).unwrap();
    assert!(windows.present_window(SHELL, first));
    assert!(windows.present_window(SHELL, second));
    assert!(windows.focus_window(SHELL, first));
    assert_eq!(windows.order(), &[1, 0]);
    assert!(windows.window(0).focused && !windows.window(1).focused);
    assert!(windows.dispatch_keyboard(SHELL, SHELL, key(30)));
    assert!(!windows.dispatch_keyboard(SHELL, OTHER, key(30)));
    assert_eq!(windows.read_window_event(SHELL, first), Some(key(30)));
    assert_eq!(windows.read_window_event(SHELL, second), None);
    assert_eq!(windows.read_window_event(OTHER, first), None);
    assert!(!windows.focus_window(OTHER, second));
}

#[test]
fn pointer_events_go_to_the_topmost_window_under_the_pointer() {
    let mut windows = WindowManager::new();
    let back = windows.create_window(SHELL, SCREEN, SHELL, geometry(0, 0, 400, 400)).unwrap();
    let front = windows.create_window(SHELL, SCREEN, SHELL, geometry(100, 100, 100, 100)).unwrap();
    assert!(windows.present_window(SHELL, back));
    assert_eq!(windows.dispatch_pointer(SHELL, SHELL, 150, 150, mouse(0)), Ok(back));
    assert!(windows.present_window(SHELL, front));
    assert_eq!(windows.dispatch_pointer(SHELL, SHELL, 150, 150, mouse(0)), Ok(front));
    assert_eq!(windows.dispatch_pointer(SHELL, SHELL, 50, 50, mouse(1)), Ok(back));
    assert_eq!(windows.order(), &[1, 0]);
    assert!(windows.window(0).focused && !windows.window(1).focused);
    assert_eq!(windows.dispatch_pointer(SHELL, SHELL, 500, 500, mouse(0)), Ok(0));
    assert!(!windows.window(0).focused && !windows.window(1).focused);
    assert_eq!(windows.dispatch_pointer(OTHER, SHELL, 50, 50, mouse(0)), Err(()));
    // Consecutive motion collapses into the newest event.
    assert_eq!(windows.read_window_event(SHELL, back), Some(mouse(1)));
    assert_eq!(windows.read_window_event(SHELL, back), None);
    assert_eq!(windows.read_window_event(SHELL, front), Some(mouse(0)));
}

#[test]
fn configure_and_close_reach_the_window_as_events() {
    let mut windows = WindowManager::new();
    let id = windows.create_window(SHELL, SCREEN, OTHER, geometry(0, 0, 100, 100)).unwrap();
    assert!(!windows.configure_window(OTHER, SCREEN, SHELL, id, geometry(0, 0, 200, 200)));
    assert!(windows.configure_window(SHELL, SCREEN, SHELL, id, geometry(0, 0, 200, 200)));
    assert!(windows.configure_window(SHELL, SCREEN, SHELL, id, geometry(0, 0, 300, 200)));
    assert!(!windows.configure_window(SHELL, SCREEN, SHELL, id, geometry(0, 0, 3000, 200)));
    assert_eq!(windows.window_geometry(SHELL, SHELL, id), Some(geometry(0, 0, 300, 200)));
    assert_eq!(windows.window_geometry(SHELL, OTHER, id), Some(geometry(0, 0, 300, 200)));
    assert_eq!(windows.window_geometry(SHELL, 3, id), None);
    assert!(windows.request_window_close(SHELL, SHELL, id));
    assert!(windows.window(0).focused);
    let configure = InputEvent { kind: INPUT_EVENT_WINDOW, code: WINDOW_EVENT_CONFIGURE, ..Default::default() };
    let close = InputEvent { kind: INPUT_EVENT_WINDOW, code: WINDOW_EVENT_CLOSE, ..Default::default() };
    assert_eq!(windows.read_window_event(OTHER, id), Some(configure));
    assert_eq!(windows.read_window_event(OTHER, id), Some(close));
    assert_eq!(windows.read_window_event(OTHER, id), None);
    assert!(!windows.request_window_close(SHELL, SHELL, 2));
}

#[test]
fn destroying_a_focused_window_hands_focus_to_the_owners_next_window() {
    let mut windows = WindowManager::new();
    let a = windows.create_window(SHELL, SCREEN, SHELL, geometry(0, 0, 10, 10)).unwrap();
    let b = windows.create_window(SHELL, SCREEN, OTHER, geometry(0, 0, 10, 10)).unwrap();
    let c = windows.create_window(SHELL, SCREEN, SHELL, geometry(0, 0, 10, 10)).unwrap();
    for id in [a, b, c] {
        assert!(windows.present_window(if id == b { OTHER } else { SHELL }, id));
    }
    assert!(windows.focus_window(SHELL, c));
    assert!(!windows.destroy_window(OTHER, c));
    assert!(windows.destroy_window(SHELL, c));
    assert_eq!(windows.order(), &[0, 1]);
    assert!(windows.window(0).focused);
    assert!(!windows.window(1).focused);
    assert_eq!(windows.window(2).owner, 0);

    windows.destroy_windows_for_owner(SHELL);
    assert_eq!(windows.order(), &[1]);
    assert_eq!(windows.window(0).owner, 0);
    assert_eq!(windows.window(1).owner, OTHER);
    windows.destroy_windows_for_owner(0);
    assert_eq!(windows.order(), &[1]);
}
