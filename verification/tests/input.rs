use vid_player::input::InputAction;
use vid_player::input::InputHandler;
use vid_player::input::Key;
use vid_player::input::MovementKeys;

#[test]
fn keys_act_on_the_way_down_only() {
    assert_eq!(InputHandler::handle_key(Key::Escape, true), InputAction::Exit);
    assert_eq!(InputHandler::handle_key(Key::Space, true), InputAction::ToggleShape);
    assert_eq!(InputHandler::handle_key(Key::KeyV, true), InputAction::ToggleDepthVisualization);
    for key in [Key::Escape, Key::Space, Key::KeyV, Key::KeyW, Key::Other] {
        assert_eq!(InputHandler::handle_key(key, false), InputAction::Nothing);
    }
    for key in [Key::KeyW, Key::KeyA, Key::ArrowUp, Key::Other] {
        assert_eq!(InputHandler::handle_key(key, true), InputAction::Nothing);
    }
}

#[test]
fn movement_keys_follow_letters_and_arrows() {
    let mut keys = MovementKeys::new();
    assert!(!keys.is_forward_pressed && !keys.is_backward_pressed);
    assert!(keys.handle_key(Key::KeyW, true));
    assert!(keys.handle_key(Key::ArrowLeft, true));
    assert!(keys.is_forward_pressed && keys.is_left_pressed);
    assert!(!keys.is_backward_pressed && !keys.is_right_pressed);
    assert!(keys.handle_key(Key::ArrowUp, false));
    assert!(!keys.is_forward_pressed && keys.is_left_pressed);
    assert!(keys.handle_key(Key::KeyS, true));
    assert!(keys.handle_key(Key::ArrowRight, true));
    assert!(keys.is_backward_pressed && keys.is_right_pressed);
    assert!(keys.handle_key(Key::ArrowDown, false));
    assert!(keys.handle_key(Key::KeyD, false));
    assert!(keys.handle_key(Key::KeyA, false));
    assert_eq!(keys, MovementKeys::new());
}

#[test]
fn other_keys_move_nothing() {
    let mut keys = MovementKeys::new();
    keys.handle_key(Key::KeyD, true);
    let before = keys;
    for key in [Key::Escape, Key::Space, Key::KeyV, Key::Other] {
        assert!(!keys.handle_key(key, true));
        assert!(!keys.handle_key(key, false));
    }
    assert_eq!(keys, before);
}
