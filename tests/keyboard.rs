use chip8::keyboard::{KeyEvent, Keyboard};

#[test]
fn events_apply_in_order() {
    let mut k = Keyboard::default();
    k.update_key_states(vec![KeyEvent::Pressed(3), KeyEvent::Pressed(0xF), KeyEvent::Released(3)]);
    assert!(!k.is_pressed(3));
    assert!(k.is_pressed(0xF));
    assert_eq!(k.last_pressed, Some(0xF));
}

#[test]
fn last_pressed_resets_each_batch() {
    let mut k = Keyboard::default();
    k.update_key_states(vec![KeyEvent::Pressed(1)]);
    assert_eq!(k.last_pressed, Some(1));
    k.update_key_states(vec![KeyEvent::Released(2)]);
    assert_eq!(k.last_pressed, None);
    assert!(k.is_pressed(1));
    k.update_key_states(vec![]);
    assert_eq!(k.last_pressed, None);
}

#[test]
fn later_press_wins() {
    let mut k = Keyboard::default();
    k.update_key_states(vec![KeyEvent::Pressed(4), KeyEvent::Pressed(9), KeyEvent::Released(9)]);
    assert_eq!(k.last_pressed, Some(9));
    assert!(k.is_pressed(4));
    assert!(!k.is_pressed(9));
}
