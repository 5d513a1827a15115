use cobalt::input::{Input, InputEvent, MouseButton};

const W: u32 = 17;
const A: u32 = 30;

#[test]
fn nothing_is_down_at_first() {
    let mut input = Input::new();
    assert!(!input.is_key_down(W));
    assert!(!input.is_key_clicked(W));
    assert!(input.is_mouse_down(MouseButton::Other(0)));
    assert!(!input.is_mouse_down(MouseButton::Left));
}

#[test]
fn pressed_key_clicks_once_and_stays_down() {
    let mut input = Input::new();
    input.update(InputEvent::KeyPressed(W));
    assert!(input.is_key_down(W));
    assert!(!input.is_key_down(A));
    assert!(input.is_key_clicked(W));
    assert!(!input.is_key_clicked(W));
    assert!(input.is_key_down(W));
    assert_eq!(input.keys, vec![(W, false)]);
}

#[test]
fn released_key_loses_every_entry() {
    let mut input = Input::new();
    input.update(InputEvent::KeyPressed(W));
    input.update(InputEvent::KeyPressed(A));
    input.update(InputEvent::KeyPressed(W));
    input.update(InputEvent::KeyPressed(W));
    input.update(InputEvent::KeyReleased(W));
    assert_eq!(input.keys, vec![(A, true)]);
    assert!(!input.is_key_down(W));
    assert!(!input.is_key_clicked(W));
    assert!(input.is_key_down(A));
    input.update(InputEvent::KeyReleased(W));
    assert_eq!(input.keys, vec![(A, true)]);
}

#[test]
fn repeated_press_clicks_once_per_entry_oldest_first() {
    let mut input = Input::new();
    input.update(InputEvent::KeyPressed(A));
    input.update(InputEvent::KeyPressed(W));
    input.update(InputEvent::KeyPressed(W));
    assert!(input.is_key_clicked(W));
    assert_eq!(input.keys, vec![(A, true), (W, false), (W, true)]);
    assert!(input.is_key_clicked(W));
    assert_eq!(input.keys, vec![(A, true), (W, false), (W, false)]);
    assert!(!input.is_key_clicked(W));
    assert!(input.is_key_clicked(A));
}

#[test]
fn last_pressed_button_is_down_until_a_release() {
    let mut input = Input::new();
    input.update(InputEvent::MousePressed(MouseButton::Left));
    assert!(input.is_mouse_down(MouseButton::Left));
    input.update(InputEvent::MousePressed(MouseButton::Other(4)));
    assert!(input.is_mouse_down(MouseButton::Other(4)));
    assert!(!input.is_mouse_down(MouseButton::Left));
    input.update(InputEvent::KeyPressed(W));
    assert!(input.is_mouse_down(MouseButton::Other(4)));
    input.update(InputEvent::MouseReleased);
    assert!(input.is_mouse_down(MouseButton::Other(0)));
    assert!(!input.is_mouse_down(MouseButton::Other(4)));
    assert!(input.is_key_down(W));
}
