use stratland::clockwork::{ConnectionID, Input, Options, RemoteInput, RemoteOptions};
use stratland::game::{GameInput, GameOptions};
use stratland::input::{
    AdvanceableState, Button, ButtonState, Key, KeyState, Keyboard, Mouse,
};

#[test]
fn default_payloads() {
    assert_eq!(GameInput::default(), GameInput::Idle);
    assert_eq!(GameOptions::default(), GameOptions { min_players: 3, random_seed: [0, 0, 0, 0] });
}

#[test]
fn game_options_travel_as_nine_bytes() {
    let options = RemoteOptions::new(
        ConnectionID::new(1),
        GameOptions { min_players: 3, random_seed: [9, 8, 7, 6] },
    );
    let bytes = GameOptions::encode(&options).unwrap();
    assert_eq!(bytes, vec![1, 0, 0, 0, 3, 9, 8, 7, 6]);
    let decoded = GameOptions::decode(&bytes).unwrap();
    assert_eq!(decoded.id, options.id);
    assert_eq!(decoded.data, options.data);
    assert!(GameOptions::decode(&bytes[..8]).is_none());
}

#[test]
fn game_options_hash_their_content() {
    let options = GameOptions { min_players: 3, random_seed: [9, 8, 7, 6] };
    assert_eq!(options.content_hash(), options.hash());
    assert_eq!(options.hash(), GameOptions { min_players: 3, random_seed: [9, 8, 7, 6] }.hash());
    assert_ne!(options.hash(), GameOptions { min_players: 2, random_seed: [9, 8, 7, 6] }.hash());
    assert_ne!(options.hash(), GameOptions { min_players: 3, random_seed: [9, 8, 7, 5] }.hash());
}

#[test]
fn game_inputs_travel_with_their_clicks() {
    let inputs = RemoteInput::new(
        ConnectionID::new(2),
        5,
        vec![GameInput::LeftClick(3, 4), GameInput::Idle],
    );
    let bytes = GameInput::encode(&inputs).unwrap();
    assert_eq!(bytes, vec![2, 0, 0, 0, 2, 0, 0, 0, 0, 0, 0, 0, 1, 3, 4, 0, 5]);
    let decoded = GameInput::decode(&bytes).unwrap();
    assert_eq!(decoded.id, inputs.id);
    assert_eq!(decoded.sequence, 5);
    assert_eq!(decoded.data, inputs.data);
    assert!(GameInput::decode(&bytes[..16]).is_none());
}

#[test]
fn keys_and_buttons_have_their_places() {
    assert_eq!(usize::from(Key::W), 0);
    assert_eq!(usize::from(Key::A), 1);
    assert_eq!(usize::from(Key::S), 2);
    assert_eq!(usize::from(Key::D), 3);
    assert_eq!(usize::from(Key::Unknown), 4);
    assert_eq!(usize::from(Button::Left), 0);
    assert_eq!(usize::from(Button::Right), 1);
    assert_eq!(usize::from(Button::Unknown), 2);
}

#[test]
fn key_states_last_one_frame() {
    assert_eq!(KeyState::default(), KeyState::Released);
    assert_eq!(KeyState::WasPressed.advance(), KeyState::Pressed);
    assert_eq!(KeyState::WasReleased.advance(), KeyState::Released);
    assert_eq!(KeyState::Pressed.advance(), KeyState::Pressed);
    assert_eq!(KeyState::Released.advance(), KeyState::Released);
    assert_eq!(KeyState::Pressed.reset(), KeyState::WasReleased);
    assert_eq!(KeyState::WasPressed.reset(), KeyState::WasPressed);
    assert_eq!(KeyState::Released.reset(), KeyState::Released);
    assert!(KeyState::WasPressed.was_pressed() && KeyState::WasPressed.is_pressed());
    assert!(!KeyState::Pressed.was_pressed() && KeyState::Pressed.is_pressed());
    assert!(KeyState::WasReleased.was_released() && KeyState::WasReleased.is_released());
    assert!(!KeyState::Released.was_released() && KeyState::Released.is_released());
    assert!(!KeyState::Released.is_pressed() && !KeyState::Pressed.is_released());
}

#[test]
fn button_states_keep_their_position() {
    assert_eq!(ButtonState::default(), ButtonState::Released(-1, -1));
    assert_eq!(ButtonState::WasPressed(3, 4).advance(), ButtonState::Pressed(3, 4));
    assert_eq!(ButtonState::WasReleased(3, 4).advance(), ButtonState::Released(3, 4));
    assert_eq!(ButtonState::Pressed(3, 4).reset(), ButtonState::WasReleased(3, 4));
    assert_eq!(ButtonState::Released(3, 4).reset(), ButtonState::Released(3, 4));
    for state in [
        ButtonState::WasPressed(3, 4),
        ButtonState::Pressed(3, 4),
        ButtonState::WasReleased(3, 4),
        ButtonState::Released(3, 4),
    ] {
        assert_eq!(state.position(), (3, 4));
    }
    assert!(ButtonState::WasPressed(0, 0).was_pressed() && ButtonState::WasPressed(0, 0).is_pressed());
    assert!(!ButtonState::Pressed(0, 0).was_pressed() && ButtonState::Pressed(0, 0).is_pressed());
    assert!(ButtonState::WasReleased(0, 0).was_released() && ButtonState::WasReleased(0, 0).is_released());
    assert!(!ButtonState::Released(0, 0).was_released() && ButtonState::Released(0, 0).is_released());
}

#[test]
fn keyboard_moves_from_frame_to_frame() {
    let mut keyboard = Keyboard::new(5);
    assert!(keyboard.is_released(Key::W) && keyboard.is_released(Key::Unknown));
    assert!(!keyboard.was_released(Key::W));
    keyboard.set(Key::W, KeyState::WasPressed);
    keyboard.set(Key::D, KeyState::WasReleased);
    assert!(keyboard.was_pressed(Key::W) && keyboard.is_pressed(Key::W));
    assert!(keyboard.was_released(Key::D));
    keyboard.advance();
    assert!(!keyboard.was_pressed(Key::W) && keyboard.is_pressed(Key::W));
    assert_eq!(*keyboard.get(Key::D), KeyState::Released);
    keyboard.reset();
    assert!(keyboard.was_released(Key::W));
    keyboard.advance();
    assert_eq!(keyboard.fields, vec![KeyState::Released; 5]);
}

#[test]
fn mouse_remembers_where_it_changed() {
    let mut mouse = Mouse::new(2);
    assert_eq!(mouse.get(Button::Left).position(), (-1, -1));
    mouse.set(Button::Left, ButtonState::WasPressed(10, 20));
    assert!(mouse.was_pressed(Button::Left));
    assert!(!mouse.is_pressed(Button::Right));
    mouse.advance();
    mouse.reset();
    assert_eq!(*mouse.get(Button::Left), ButtonState::WasReleased(10, 20));
    assert!(mouse.was_released(Button::Left) && mouse.is_released(Button::Left));
}
