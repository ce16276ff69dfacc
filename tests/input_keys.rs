use space_shooter::input_manager::{is_key_pressed, key_down, key_up, InputState};

#[test]
fn key_down_then_up() {
    let mut keys = InputState::new();
    assert!(!is_key_pressed(&keys, "W"));
    key_down(&mut keys, "W".to_string());
    assert!(is_key_pressed(&keys, "W"));
    assert!(!is_key_pressed(&keys, "A"));
    key_up(&mut keys, "W".to_string());
    assert!(!is_key_pressed(&keys, "W"));
}

#[test]
fn key_up_of_unseen_key_records_released() {
    let mut keys = InputState::new();
    key_up(&mut keys, " ".to_string());
    assert!(!is_key_pressed(&keys, " "));
    key_down(&mut keys, " ".to_string());
    key_down(&mut keys, " ".to_string());
    assert!(is_key_pressed(&keys, " "));
}
