use flip_companion::touch::{
    find_touchscreen, is_event_device, is_touchscreen, panel_range, PanelRange, PanelTouch, Probe,
    RawEvent, TouchAction,
    TouchDecoder, TouchEvent, TouchRouter, ABS_X, ABS_Y, APPS_TAB, BTN_TOUCH, CLIENT_Y_END,
    CLIENT_Y_START, EV_ABS, EV_KEY, EV_SYN, NAV_BAR_HEIGHT, SCREEN_HEIGHT, STATUS_BAR_HEIGHT,
};

fn ev(kind: u16, code: u16, value: i32) -> RawEvent {
    RawEvent { kind, code, value }
}

fn feed_all(decoder: &mut TouchDecoder, events: &[RawEvent]) -> Vec<PanelTouch> {
    events.iter().filter_map(|e| decoder.feed(*e)).collect()
}

#[test]
fn event_codes_are_those_of_the_kernel() {
    assert_eq!(EV_SYN, evdev::EventType::SYNCHRONIZATION.0);
    assert_eq!(EV_KEY, evdev::EventType::KEY.0);
    assert_eq!(EV_ABS, evdev::EventType::ABSOLUTE.0);
    assert_eq!(ABS_X, evdev::AbsoluteAxisCode::ABS_X.0);
    assert_eq!(ABS_Y, evdev::AbsoluteAxisCode::ABS_Y.0);
    assert_eq!(BTN_TOUCH, evdev::KeyCode::BTN_TOUCH.0);
    assert_eq!(BTN_TOUCH, 0x14a);
}

#[test]
fn screen_is_split_into_three_areas() {
    assert_eq!(STATUS_BAR_HEIGHT, 40);
    assert_eq!(CLIENT_Y_START, 40);
    assert_eq!(CLIENT_Y_END, 1024);
    assert_eq!(CLIENT_Y_END + NAV_BAR_HEIGHT, SCREEN_HEIGHT);
    assert_eq!(SCREEN_HEIGHT, 1080);
}

#[test]
fn touchscreen_is_found_by_path_and_name() {
    assert!(is_event_device(Some("/dev/input/event3")));
    assert!(!is_event_device(Some("/dev/input/js0")));
    assert!(!is_event_device(None));
    assert!(is_touchscreen(Some("Goodix Capacitive TouchScreen")));
    assert!(!is_touchscreen(Some("AT keyboard")));
    assert!(!is_touchscreen(None));
}

#[test]
fn panel_range_has_defaults() {
    assert_eq!(panel_range(&vec![]), PanelRange { x_max: 1080, y_max: 1620 });
    assert_eq!(
        panel_range(&vec![(ABS_X, 4095), (0x2f, 9), (ABS_Y, 8191)]),
        PanelRange { x_max: 4095, y_max: 8191 }
    );
    assert_eq!(
        panel_range(&vec![(ABS_X, 1), (ABS_X, 2)]),
        PanelRange { x_max: 2, y_max: 1620 }
    );
}

#[test]
fn press_waits_for_the_end_of_the_report() {
    let mut d = TouchDecoder::new();
    assert_eq!(d.feed(ev(EV_KEY, BTN_TOUCH, 1)), None);
    assert_eq!(d.feed(ev(EV_ABS, ABS_X, 100)), None);
    assert_eq!(d.feed(ev(EV_ABS, ABS_Y, 200)), None);
    assert_eq!(d.feed(ev(EV_SYN, 0, 0)), Some(PanelTouch::Down { x: 100, y: 200 }));
    assert_eq!(d.feed(ev(EV_ABS, ABS_X, 110)), None);
    assert_eq!(d.feed(ev(EV_SYN, 0, 0)), Some(PanelTouch::Move { x: 110, y: 200 }));
    assert_eq!(d.feed(ev(EV_KEY, BTN_TOUCH, 0)), None);
    assert_eq!(d.feed(ev(EV_SYN, 0, 0)), Some(PanelTouch::Up));
    assert_eq!(d.feed(ev(EV_SYN, 0, 0)), None);
}

#[test]
fn nothing_moves_without_a_finger() {
    let mut d = TouchDecoder::new();
    let out = feed_all(
        &mut d,
        &[ev(EV_ABS, ABS_X, 5), ev(EV_SYN, 0, 0), ev(EV_ABS, ABS_Y, 6), ev(EV_SYN, 0, 0)],
    );
    assert!(out.is_empty());
    assert_eq!((d.x, d.y), (5, 6));
}

#[test]
fn tap_in_one_report_gives_both_ends() {
    let mut d = TouchDecoder::new();
    let out = feed_all(
        &mut d,
        &[
            ev(EV_KEY, BTN_TOUCH, 1),
            ev(EV_KEY, BTN_TOUCH, 0),
            ev(EV_SYN, 0, 0),
            ev(EV_SYN, 0, 0),
            ev(EV_SYN, 0, 0),
        ],
    );
    assert_eq!(out, vec![PanelTouch::Down { x: 0, y: 0 }, PanelTouch::Up]);
}

#[test]
fn other_keys_and_events_are_ignored() {
    let mut d = TouchDecoder::new();
    let out = feed_all(
        &mut d,
        &[
            ev(EV_KEY, 0x145, 1),
            ev(EV_ABS, 0x35, 77),
            ev(0x04, 4, 1),
            ev(EV_SYN, 0, 0),
        ],
    );
    assert!(out.is_empty());
    assert_eq!(d, TouchDecoder::new());
}

#[test]
fn key_repeat_counts_as_release() {
    let mut d = TouchDecoder::new();
    feed_all(&mut d, &[ev(EV_KEY, BTN_TOUCH, 1), ev(EV_SYN, 0, 0)]);
    assert_eq!(
        feed_all(&mut d, &[ev(EV_KEY, BTN_TOUCH, 2), ev(EV_SYN, 0, 0)]),
        vec![PanelTouch::Up]
    );
}

fn down(x: f32, y: f32) -> TouchEvent<(f32, f32)> {
    TouchEvent::Down { position: (x, y), row: y.floor() as i32 }
}

#[test]
fn touch_in_the_client_area_goes_to_the_client() {
    let mut r = TouchRouter::new((0.0f32, 0.0f32));
    assert_eq!(
        r.dispatch(down(10.0, 40.0), true, APPS_TAB),
        TouchAction::ClientDown { position: (10.0, 40.0) }
    );
    assert_eq!(
        r.dispatch(TouchEvent::Move { position: (11.0, 5.0) }, true, 0),
        TouchAction::ClientMotion { position: (11.0, 5.0) }
    );
    assert_eq!(r.dispatch(TouchEvent::Up, true, 0), TouchAction::ClientUp);
    assert_eq!(r.last_position, (0.0, 0.0));
}

#[test]
fn rows_just_outside_the_client_area_go_to_the_ui() {
    let mut r = TouchRouter::new((0.0f32, 0.0f32));
    assert_eq!(
        r.dispatch(down(1.0, 39.9), true, APPS_TAB),
        TouchAction::UiPressed { position: (1.0, 39.9) }
    );
    assert_eq!(
        r.dispatch(down(1.0, 1024.0), true, APPS_TAB),
        TouchAction::UiPressed { position: (1.0, 1024.0) }
    );
    assert_eq!(
        r.dispatch(down(1.0, 1023.9), true, APPS_TAB),
        TouchAction::ClientDown { position: (1.0, 1023.9) }
    );
}

#[test]
fn without_client_or_apps_tab_the_ui_gets_the_touch() {
    let mut r = TouchRouter::new((0.0f32, 0.0f32));
    for (active, tab) in [(false, APPS_TAB), (true, 0), (true, 1), (false, 0)] {
        assert_eq!(
            r.dispatch(down(3.0, 500.0), active, tab),
            TouchAction::UiPressed { position: (3.0, 500.0) }
        );
    }
}

#[test]
fn release_is_at_the_last_position_of_the_ui() {
    let mut r = TouchRouter::new((0.0f32, 0.0f32));
    r.dispatch(down(3.0, 4.0), false, 0);
    assert_eq!(
        r.dispatch(TouchEvent::Move { position: (5.0, 6.0) }, false, 0),
        TouchAction::UiMoved { position: (5.0, 6.0) }
    );
    assert_eq!(
        r.dispatch(TouchEvent::Up, false, 0),
        TouchAction::UiReleased { position: (5.0, 6.0) }
    );
    assert_eq!(
        r.dispatch(TouchEvent::Move { position: (9.0, 9.0) }, false, 0),
        TouchAction::Ignore
    );
}

#[test]
fn gesture_of_a_client_that_left_ends_in_the_ui() {
    let mut r = TouchRouter::new((7.0f32, 8.0f32));
    r.dispatch(down(10.0, 100.0), true, APPS_TAB);
    r.leave_client();
    assert_eq!(
        r.dispatch(TouchEvent::Move { position: (1.0, 2.0) }, false, APPS_TAB),
        TouchAction::UiMoved { position: (1.0, 2.0) }
    );
    assert_eq!(
        r.dispatch(TouchEvent::Up, false, APPS_TAB),
        TouchAction::UiReleased { position: (1.0, 2.0) }
    );
}

fn opened(name: &str) -> Probe {
    Probe::Opened { name: Some(name.to_string()) }
}

#[test]
fn the_first_touchscreen_is_found() {
    let probes = vec![
        Probe::Passed,
        Probe::Opened { name: None },
        opened("AT Keyboard"),
        opened("Goodix Capacitive TouchScreen"),
        opened("Goodix 2"),
    ];
    assert_eq!(find_touchscreen(&probes), Some(3));
    assert!(probes[0].search_goes_on());
    assert!(probes[1].search_goes_on());
    assert!(probes[2].search_goes_on());
    assert!(!probes[3].search_goes_on());
}

#[test]
fn an_unlisted_entry_ends_the_search() {
    let probes = vec![Probe::Passed, Probe::Unlisted, opened("Goodix")];
    assert!(!probes[1].search_goes_on());
    assert_eq!(find_touchscreen(&probes), None);
    assert_eq!(find_touchscreen(&vec![opened("goodix")]), None);
    assert_eq!(find_touchscreen(&Vec::new()), None);
}

#[test]
fn only_the_end_of_a_report_gives_a_touch() {
    let mut decoder = TouchDecoder::new();
    assert_eq!(decoder.feed(ev(EV_KEY, BTN_TOUCH, 1)), None);
    assert_eq!(decoder.feed(ev(EV_ABS, ABS_X, 1080)), None);
    assert_eq!(decoder.feed(ev(EV_ABS, ABS_Y, 1620)), None);
    assert_eq!(decoder.feed(ev(4, 4, 7)), None);
    assert_eq!(decoder.feed(ev(EV_SYN, 0, 0)), Some(PanelTouch::Down { x: 1080, y: 1620 }));
}
