use mechanix_keyboard::layout::KeyAction;
use mechanix_keyboard::state::MechanixKeyboardState;
use mechanix_keyboard::virtual_keyboard::{
    emit_action, keymap_image, scan_keycodes, stroke_requests, toggle_latch, wire_time, KeyRequest,
    KeySyms, KeyTable, Keystroke, VirtualKeyboardState,
};
use mechanix_keyboard::window::{on_registry, Global};
use xkeysym::key;

fn keysym(c: char) -> u32 {
    xkeysym::Keysym::from_char(c).raw()
}

/// The keys of a US keyboard by rows of characters, from xkb keycode 8 up: what each has
/// at the base level and, where there is a second one, at the shifted level.
fn us_keymap() -> KeyTable {
    let mut keys = Vec::new();
    let mut named = |base: u32, shifted: u32| {
        keys.push(KeySyms {
            base: if base == 0 { vec![] } else { vec![base] },
            shifted: if shifted == 0 { vec![] } else { vec![shifted] },
        });
    };
    let pairs = |named: &mut dyn FnMut(u32, u32), base: &str, shifted: &str| {
        for (b, s) in base.chars().zip(shifted.chars()) {
            named(keysym(b), keysym(s));
        }
    };
    named(0, 0); // 8
    named(key::Escape, 0); // 9
    pairs(&mut named, "1234567890-=", "!@#$%^&*()_+"); // 10..=21
    named(key::BackSpace, key::BackSpace); // 22
    named(key::Tab, key::ISO_Left_Tab); // 23
    pairs(&mut named, "qwertyuiop[]", "QWERTYUIOP{}"); // 24..=35
    named(key::Return, 0); // 36
    named(key::Control_L, 0); // 37
    pairs(&mut named, "asdfghjkl;'`", "ASDFGHJKL:\"~"); // 38..=49
    named(key::Shift_L, 0); // 50
    pairs(&mut named, "\\zxcvbnm,./", "|ZXCVBNM<>?"); // 51..=61
    KeyTable { min_keycode: 8, keys, shift_index: 0, control_index: 2 }
}

#[test]
fn shifted_keysym_carries_shift_on_the_same_key() {
    let keymap = us_keymap();
    let map = scan_keycodes(&keymap);

    // A plain lowercase letter is level 0: a bare keycode, no modifiers.
    let q = map[&keysym('q')];
    assert_eq!(q.mods, 0, "lowercase q should need no modifiers");

    // Its uppercase reaches the *same physical key*, plus a non-empty mask.
    let cap_q = map[&keysym('Q')];
    assert_eq!(cap_q.code, q.code, "Q must be the q key, shifted");
    assert_ne!(cap_q.mods, 0, "Q must carry the Shift mask");

    // The upper view's symbols ride the same mechanism: `!` is Shift+1.
    let one = map[&keysym('1')];
    let bang = map[&keysym('!')];
    assert_eq!(one.mods, 0, "digit 1 should need no modifiers");
    assert_eq!(bang.code, one.code, "! must be the 1 key, shifted");
    assert_ne!(bang.mods, 0, "! must carry the Shift mask");
}

#[test]
fn scan_gives_evdev_codes_and_the_fewest_modifiers() {
    let map = scan_keycodes(&us_keymap());
    assert_eq!(map[&keysym('q')], Keystroke { code: 16, mods: 0 });
    assert_eq!(map[&keysym('Q')], Keystroke { code: 16, mods: 1 });
    // On both levels: the bare form wins.
    assert_eq!(map[&key::BackSpace], Keystroke { code: 14, mods: 0 });
    assert!(!map.contains_key(&0));
    assert!(!map.contains_key(&keysym('é')));
}

#[test]
fn scan_takes_the_lowest_key_and_skips_what_cannot_be_sent() {
    let sym = |base: Vec<u32>, shifted: Vec<u32>| KeySyms { base, shifted };
    let table = KeyTable {
        min_keycode: 6,
        keys: vec![
            sym(vec![97], vec![65]),     // 6: below the offset
            sym(vec![], vec![]),         // 7
            sym(vec![0], vec![98]),      // 8: no keysym at the base level
            sym(vec![97, 99], vec![65]), // 9
            sym(vec![97], vec![97]),     // 10: not the lowest
            sym(vec![98], vec![]),       // 11: bare, though 8 has it shifted
        ],
        shift_index: 3,
        control_index: 2,
    };
    // Only Shift matters to the scan.
    let table = KeyTable { control_index: 99, ..table };
    let map = scan_keycodes(&table);
    assert_eq!(map.len(), 3);
    assert_eq!(map[&97], Keystroke { code: 1, mods: 0 });
    assert_eq!(map[&65], Keystroke { code: 1, mods: 8 });
    assert_eq!(map[&98], Keystroke { code: 3, mods: 0 });
}

/// A keyboard that is ready to type.
fn ready() -> MechanixKeyboardState<u32> {
    let mut s = MechanixKeyboardState::new();
    assert!(!s.wants_virtual_keyboard());
    on_registry(&mut s, "wl_seat", Global { name: 1, version: 1 });
    assert!(!s.wants_virtual_keyboard());
    on_registry(&mut s, "zwp_virtual_keyboard_manager_v1", Global { name: 2, version: 1 });
    assert!(s.wants_virtual_keyboard());
    s.install_virtual_keyboard(&us_keymap());
    assert!(!s.wants_virtual_keyboard());
    s
}

#[test]
fn installing_indexes_control() {
    let s = ready();
    assert_eq!(s.virtual_keyboard_state.mod_masks.get("Control"), Some(&4));
    assert_eq!(s.virtual_keyboard_state.mod_masks.len(), 1);
    assert!(s.virtual_keyboard_state.latched.is_empty());
}

#[test]
fn nothing_is_typed_before_the_keyboard_is_ready() {
    let mut s: MechanixKeyboardState<u32> = MechanixKeyboardState::new();
    assert!(emit_action(&mut s, &KeyAction::EmitKeysym(keysym('q'))).is_empty());
    toggle_latch(&mut s, "Control");
    assert!(s.virtual_keyboard_state.latched.is_empty());
    // A keymap without a keyboard types nothing either.
    let mut s = ready();
    assert_eq!(s.virtual_keyboard_state.emit_keysym(false, keysym('q')), None);
    assert_eq!(
        s.virtual_keyboard_state.emit_keysym(true, keysym('q')),
        Some(Keystroke { code: 16, mods: 0 })
    );
    assert_eq!(s.virtual_keyboard_state.emit_keysym(true, keysym('é')), None);
}

#[test]
fn latches_are_one_shot() {
    let mut s = ready();
    toggle_latch(&mut s, "Control");
    assert_eq!(s.virtual_keyboard_state.latched, vec!["Control".to_string()]);
    assert_eq!(s.virtual_keyboard_state.latched_mask(), 4);
    // A latched Control over a shifted key holds both.
    let strokes = emit_action(&mut s, &KeyAction::EmitKeysym(keysym('Q')));
    assert_eq!(strokes, vec![Keystroke { code: 16, mods: 5 }]);
    assert!(s.virtual_keyboard_state.latched.is_empty());
    let strokes = emit_action(&mut s, &KeyAction::EmitKeysym(keysym('Q')));
    assert_eq!(strokes, vec![Keystroke { code: 16, mods: 1 }]);
}

#[test]
fn a_second_tap_cancels_a_latch() {
    let mut s = ready();
    toggle_latch(&mut s, "Control");
    assert!(s.virtual_keyboard_state.is_latched("Control"));
    toggle_latch(&mut s, "Control");
    assert!(!s.virtual_keyboard_state.is_latched("Control"));
    toggle_latch(&mut s, "Hyper");
    assert!(s.virtual_keyboard_state.latched.is_empty());
}

#[test]
fn several_latches_combine() {
    let mut keyboard = VirtualKeyboardState::new();
    for (name, mask) in [("Control", 4u32), ("Alt", 8), ("Both", 12)] {
        keyboard.mod_masks.insert(name.to_string(), mask);
    }
    keyboard.toggle_latch("Alt");
    assert_eq!(keyboard.latched_mask(), 8);
    keyboard.toggle_latch("Control");
    keyboard.toggle_latch("Both");
    assert_eq!(keyboard.latched_mask(), 12);
    keyboard.toggle_latch("Alt");
    assert_eq!(keyboard.latched, vec!["Control".to_string(), "Both".to_string()]);
    keyboard.consume_latch();
    assert_eq!(keyboard.latched_mask(), 0);
}

#[test]
fn text_types_each_character_and_latches_the_first() {
    let mut s = ready();
    toggle_latch(&mut s, "Control");
    // The keymap has no é: it is left out. A tab has a keysym of its own.
    let strokes = emit_action(&mut s, &KeyAction::EmitText("aé!\t".into()));
    assert_eq!(
        strokes,
        vec![
            Keystroke { code: 30, mods: 4 },
            Keystroke { code: 2, mods: 1 },
            Keystroke { code: 15, mods: 0 },
        ]
    );
    assert!(s.virtual_keyboard_state.latched.is_empty());
    // What comes before the first keystroke does not use the latch up.
    toggle_latch(&mut s, "Control");
    let strokes = emit_action(&mut s, &KeyAction::EmitText("éab".into()));
    assert_eq!(strokes, vec![Keystroke { code: 30, mods: 4 }, Keystroke { code: 48, mods: 0 }]);
    assert!(s.virtual_keyboard_state.latched.is_empty());
}

#[test]
fn a_latch_waits_for_a_keystroke() {
    let mut s = ready();
    toggle_latch(&mut s, "Control");
    for action in [
        KeyAction::EmitKeysym(keysym('é')),
        KeyAction::EmitText("éü".into()),
        KeyAction::EmitText(String::new()),
    ] {
        assert!(emit_action(&mut s, &action).is_empty());
        assert!(s.virtual_keyboard_state.is_latched("Control"));
    }
    // Nor does a keyboard that is not ready use it up.
    assert_eq!(s.virtual_keyboard_state.emit_keysym(false, keysym('q')), None);
    assert!(s.virtual_keyboard_state.is_latched("Control"));
    let strokes = emit_action(&mut s, &KeyAction::EmitKeysym(keysym('q')));
    assert_eq!(strokes, vec![Keystroke { code: 16, mods: 4 }]);
    assert!(s.virtual_keyboard_state.latched.is_empty());
}

#[test]
fn a_latched_text_sends_modifiers_around_its_first_key_alone() {
    let mut s = ready();
    toggle_latch(&mut s, "Control");
    let requests: Vec<KeyRequest> = emit_action(&mut s, &KeyAction::EmitText("ab".into()))
        .into_iter()
        .flat_map(|stroke| stroke_requests(stroke, 1))
        .collect();
    assert_eq!(
        requests,
        vec![
            KeyRequest::Modifiers { depressed: 4 },
            KeyRequest::Key { time: 1, code: 30, pressed: true },
            KeyRequest::Key { time: 1, code: 30, pressed: false },
            KeyRequest::Modifiers { depressed: 0 },
            KeyRequest::Key { time: 1, code: 48, pressed: true },
            KeyRequest::Key { time: 1, code: 48, pressed: false },
        ]
    );
}

#[test]
fn what_does_not_type_keeps_the_latch() {
    let mut s = ready();
    toggle_latch(&mut s, "Control");
    for action in [
        KeyAction::Unhandled("show_prefs".into()),
        KeyAction::SetView("base".into()),
        KeyAction::ToggleView { lock: "upper".into(), unlock: "base".into() },
        KeyAction::LatchModifier("Control".into()),
    ] {
        assert!(emit_action(&mut s, &action).is_empty());
        assert!(s.virtual_keyboard_state.is_latched("Control"));
    }
}

#[test]
fn keystrokes_hold_their_modifiers_around_the_key() {
    assert_eq!(
        stroke_requests(Keystroke { code: 16, mods: 5 }, 77),
        vec![
            KeyRequest::Modifiers { depressed: 5 },
            KeyRequest::Key { time: 77, code: 16, pressed: true },
            KeyRequest::Key { time: 77, code: 16, pressed: false },
            KeyRequest::Modifiers { depressed: 0 },
        ]
    );
    assert_eq!(
        stroke_requests(Keystroke { code: 16, mods: 0 }, 77),
        vec![
            KeyRequest::Key { time: 77, code: 16, pressed: true },
            KeyRequest::Key { time: 77, code: 16, pressed: false },
        ]
    );
}

#[test]
fn times_wrap_at_32_bits() {
    assert_eq!(wire_time(0), 0);
    assert_eq!(wire_time(4_294_967_295), u32::MAX);
    assert_eq!(wire_time(4_294_967_296 + 5), 5);
}

#[test]
fn keymaps_are_shared_with_a_nul() {
    let image = keymap_image(b"xkb_keymap {}");
    assert_eq!(image.bytes, b"xkb_keymap {}\0".to_vec());
    assert_eq!(image.size, 14);
    let image = keymap_image(b"");
    assert_eq!((image.bytes, image.size), (vec![0], 1));
}
