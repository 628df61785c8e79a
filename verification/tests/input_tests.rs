use engine::input::KeyState;
use engine::input::Keyboard;
use rand::Rng;

const KEY_ESCAPE: u16 = 0x1B;
const KEY_Q: u16 = 0x51;

#[test]
fn test_input_logic() {
    let mut key_state = KeyState::new();

    key_state.update_state(true);

    assert!(key_state.is_pressed());

    key_state.update_state(true);

    assert!(key_state.is_held());

    key_state.update_state(false);

    assert!(key_state.is_released());

    key_state.update_state(false);

    assert!(!key_state.is_pressed());
    assert!(!key_state.is_held());
    assert!(!key_state.is_released());
}

#[test]
fn test_keyboard_struct() {
    let mut keyboard = Keyboard::create(vec![KEY_ESCAPE, KEY_Q]);

    assert_eq!(keyboard.len(), 2);

    assert!(keyboard.get_key_state(KEY_ESCAPE).is_open());
    assert!(keyboard.get_key_state(KEY_Q).is_open());

    keyboard.update_key_states(&vec![true, false]);

    assert!(keyboard.get_key_state(KEY_ESCAPE).is_pressed());
}

#[test]
fn transition_table_exhaustive() {
    // Every row of the transition table: previous state sampled down/up.
    let make = |pressed: bool, held: bool, released: bool| {
        let mut s = KeyState::new();
        s.pressed = pressed;
        s.held = held;
        s.released = released;
        s
    };

    // Open
    let mut s = make(false, false, false);
    s.update_state(true);
    assert!(s.is_pressed());
    let mut s = make(false, false, false);
    s.update_state(false);
    assert!(s.is_open());

    // Pressed
    let mut s = make(true, false, false);
    s.update_state(true);
    assert!(s.is_held());
    let mut s = make(true, false, false);
    s.update_state(false);
    assert!(s.is_released());

    // Held
    let mut s = make(false, true, false);
    s.update_state(true);
    assert!(s.is_held());
    let mut s = make(false, true, false);
    s.update_state(false);
    assert!(s.is_released());

    // Released
    let mut s = make(false, false, true);
    s.update_state(true);
    assert!(s.is_pressed());
    let mut s = make(false, false, true);
    s.update_state(false);
    assert!(s.is_open());
}

#[test]
fn random_sample_sequences_keep_exactly_one_state() {
    let mut rng = rand::thread_rng();
    for _run in 0..50 {
        let mut key_state = KeyState::new();
        for _tick in 0..200 {
            let down: bool = rng.gen();
            key_state.update_state(down);
            let flags = [
                key_state.is_open(),
                key_state.is_pressed(),
                key_state.is_held(),
                key_state.is_released(),
            ];
            let set = flags.iter().filter(|&&f| f).count();
            assert_eq!(set, 1);
        }
    }
}

#[test]
fn keyboard_updates_every_tracked_key() {
    let mut keyboard = Keyboard::create(vec![1, 2, 3]);
    assert_eq!(keyboard.key_at(0), 1);
    assert_eq!(keyboard.key_at(1), 2);
    assert_eq!(keyboard.key_at(2), 3);

    keyboard.update_key_states(&vec![true, false, true]);
    assert!(keyboard.get_key_state(1).is_pressed());
    assert!(keyboard.get_key_state(2).is_open());
    assert!(keyboard.get_key_state(3).is_pressed());

    keyboard.update_key_states(&vec![true, true, false]);
    assert!(keyboard.get_key_state(1).is_held());
    assert!(keyboard.get_key_state(2).is_pressed());
    assert!(keyboard.get_key_state(3).is_released());

    assert!(keyboard.get_key_state(1).is_pressed_or_held());
    assert!(keyboard.get_key_state(2).is_pressed_or_held());
    assert!(!keyboard.get_key_state(3).is_pressed_or_held());
}
