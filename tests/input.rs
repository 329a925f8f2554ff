use amethyst_renderer::input::{ElementState, InputEvent, InputHandler};

const A: u32 = 30;
const B: u32 = 48;
const ESC: u32 = 1;

fn press(k: u32) -> InputEvent {
    InputEvent::KeyboardInput(ElementState::Pressed, Some(k))
}

fn release(k: u32) -> InputEvent {
    InputEvent::KeyboardInput(ElementState::Released, Some(k))
}

#[test]
fn keys_go_down_and_up() {
    let mut input = InputHandler::new();
    assert!(!input.key_down(A));
    input.update(press(A));
    input.update(press(B));
    input.update(InputEvent::KeyboardInput(ElementState::Pressed, None));
    input.update(InputEvent::Other);
    assert!(input.key_down(A));
    assert!(input.keys_down(&[A, B]));
    assert!(!input.keys_down(&[A, ESC]));
    assert!(input.keys_down(&[]));
    assert_eq!(input.pressed_keys(), vec![A, B]);
    input.update(release(A));
    assert!(!input.key_down(A));
    assert_eq!(input.pressed_keys(), vec![B]);
    input.update(release(ESC));
    assert_eq!(input.pressed_keys(), vec![B]);
}

#[test]
fn losing_focus_releases_everything() {
    let mut input = InputHandler::new();
    input.update(press(A));
    input.update(press(B));
    input.update(InputEvent::Focused(true));
    assert_eq!(input.pressed_keys().len(), 2);
    input.update(InputEvent::Focused(false));
    assert!(input.pressed_keys().is_empty());
}

#[test]
fn key_once_reports_a_held_key_once() {
    let mut input = InputHandler::new();
    assert!(!input.key_once(A));
    input.update(press(A));
    assert!(input.key_once(A));
    assert!(!input.key_once(A));
    // pressing a held key again keeps it reported
    input.update(press(A));
    assert!(!input.key_once(A));
    input.update(release(A));
    input.update(press(A));
    assert!(input.key_once(A));
}

#[test]
fn keys_once_needs_all_keys_and_one_new() {
    let mut input = InputHandler::new();
    input.update(press(A));
    assert!(!input.keys_once(&[A, B]));
    // the first unreported key was marked even though the answer was no
    assert!(!input.key_once(A));
    input.update(press(B));
    assert!(input.keys_once(&[A, B]));
    assert!(!input.keys_once(&[A, B]));
    assert!(!input.keys_once(&[]));
    input.update(release(B));
    input.update(press(B));
    assert!(input.keys_once(&[B, A]));
}
