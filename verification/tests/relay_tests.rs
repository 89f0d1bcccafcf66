use layerscape::relay::{
    InputEvent, InputEventKind, PointerButton, RawButton, RawPointerEvent, RelayState,
};

fn moved(x: f64, y: f64) -> RawPointerEvent<f64> {
    RawPointerEvent::Moved { x, y }
}

fn pressed(button: RawButton) -> RawPointerEvent<f64> {
    RawPointerEvent::Pressed { button }
}

fn released(button: RawButton) -> RawPointerEvent<f64> {
    RawPointerEvent::Released { button }
}

#[test]
fn drag_sequence_classifies_as_specified() {
    let mut relay = RelayState::new(0.0, 0.0);
    let events = vec![
        moved(10.0, 10.0),
        pressed(RawButton::Left),
        moved(20.0, 10.0),
        released(RawButton::Left),
    ];
    let out = relay.process_events(&events);
    assert_eq!(
        out,
        vec![
            InputEvent { x: 10.0, y: 10.0, kind: InputEventKind::Move, button: None },
            InputEvent { x: 10.0, y: 10.0, kind: InputEventKind::Down, button: Some(PointerButton::Left) },
            InputEvent { x: 20.0, y: 10.0, kind: InputEventKind::Drag, button: Some(PointerButton::Left) },
            InputEvent { x: 20.0, y: 10.0, kind: InputEventKind::Up, button: Some(PointerButton::Left) },
        ]
    );
}

#[test]
fn moves_after_release_are_plain_moves() {
    let mut relay = RelayState::new(0.0, 0.0);
    relay.step(pressed(RawButton::Left));
    relay.step(released(RawButton::Left));
    let out = relay.step(moved(3.0, 4.0)).unwrap();
    assert_eq!(out.kind, InputEventKind::Move);
    assert_eq!(out.button, None);
}

#[test]
fn right_button_drags_are_tagged_right() {
    let mut relay = RelayState::new(0.0, 0.0);
    let down = relay.step(pressed(RawButton::Right)).unwrap();
    assert_eq!(down.kind, InputEventKind::Down);
    assert_eq!(down.button, Some(PointerButton::Right));
    let drag = relay.step(moved(5.0, 5.0)).unwrap();
    assert_eq!(drag.kind, InputEventKind::Drag);
    assert_eq!(drag.button, Some(PointerButton::Right));
}

#[test]
fn left_takes_precedence_when_both_buttons_are_held() {
    let mut relay = RelayState::new(0.0, 0.0);
    relay.step(pressed(RawButton::Right));
    relay.step(pressed(RawButton::Left));
    let drag = relay.step(moved(1.0, 2.0)).unwrap();
    assert_eq!(drag.kind, InputEventKind::Drag);
    assert_eq!(drag.button, Some(PointerButton::Left));
}

#[test]
fn other_buttons_and_non_pointer_events_are_discarded() {
    let mut relay = RelayState::new(0.0, 0.0);
    assert_eq!(relay.step(pressed(RawButton::Middle)), None);
    assert_eq!(relay.step(released(RawButton::Middle)), None);
    assert_eq!(relay.step(pressed(RawButton::Other)), None);
    assert_eq!(relay.step(RawPointerEvent::NonPointer), None);
    let out = relay.step(moved(8.0, 9.0)).unwrap();
    assert_eq!(out.kind, InputEventKind::Move);
}

#[test]
fn down_and_up_report_the_last_known_position() {
    let mut relay = RelayState::new(0.0, 0.0);
    relay.step(moved(42.5, -7.25));
    let down = relay.step(pressed(RawButton::Left)).unwrap();
    assert_eq!((down.x, down.y), (42.5, -7.25));
    let up = relay.step(released(RawButton::Left)).unwrap();
    assert_eq!((up.x, up.y), (42.5, -7.25));
    assert_eq!(up.kind, InputEventKind::Up);
}

#[test]
fn integer_coordinates_work_too() {
    let mut relay: RelayState<i64> = RelayState::new(0, 0);
    let out = relay.step(RawPointerEvent::Moved { x: 10, y: 20 }).unwrap();
    assert_eq!((out.x, out.y), (10, 20));
    assert_eq!(out.kind, InputEventKind::Move);
}
