use mechanix_keyboard::flow::Outline;
use mechanix_keyboard::layout::{
    resolve_action, resolve_face, resolve_outline, ActionSpec, Button, KeyAction, KeyFace, Keymap,
    Layout, LockingSpec, NamedKeysym, SpriteRegion, View,
};
use mechanix_keyboard::names::NameMap;
use mechanix_keyboard::scalar::{Rect, Scalar};

#[derive(Debug, Clone, Copy, PartialEq)]
struct Px(f32);

impl Scalar for Px {
    fn from_u32(n: u32) -> Self {
        Px(n as f32)
    }
    fn plus(self, other: Self) -> Self {
        Px(self.0 + other.0)
    }
    fn minus(self, other: Self) -> Self {
        Px(self.0 - other.0)
    }
    fn times(self, other: Self) -> Self {
        Px(self.0 * other.0)
    }
    fn over(self, other: Self) -> Self {
        Px(self.0 / other.0)
    }
    fn larger(self, other: Self) -> Self {
        Px(self.0.max(other.0))
    }
    fn is_positive(self) -> bool {
        self.0 > 0.0
    }
    fn rounded(self) -> u32 {
        self.0.round() as u32
    }
}

/// A `Button` with only the fields a test cares about set.
fn button(f: impl FnOnce(&mut Button)) -> Button {
    let mut b = Button::default();
    f(&mut b);
    b
}

fn size(width: f32, height: f32) -> Outline<Px> {
    Outline { width: Px(width), height: Px(height) }
}

fn rows(lines: &[&str]) -> Vec<String> {
    lines.iter().map(|line| line.to_string()).collect()
}

fn empty_layout() -> Layout<Px> {
    Layout { outlines: NameMap::new(), views: NameMap::new(), buttons: NameMap::new() }
}

fn no_icons() -> NameMap<SpriteRegion<Px>> {
    NameMap::new()
}

/// A full layout, of the kind that the keyboard falls back to.
fn fallback_layout() -> Layout<Px> {
    let mut layout = empty_layout();
    layout.outlines.insert("default".into(), size(54.0, 60.0));
    layout.outlines.insert("wide".into(), size(81.0, 60.0));
    layout.outlines.insert("spaceline".into(), size(270.0, 60.0));
    layout.views.insert(
        "base".into(),
        rows(&[
            "` 1 2 3 4 5 6 7 8 9 0 - =",
            "q w e r t y u i o p [ ]",
            "a s d f g h j k l ; ' Return",
            "Shift_L z x c v b n m , . BackSpace",
            "Ctrl show_symbols space / preferences",
        ]),
    );
    layout.views.insert(
        "upper".into(),
        rows(&[
            "~ ! @ # $ % ^ & * ( ) _ +",
            "Q W E R T Y U I O P { }",
            "A S D F G H J K L : \" Return",
            "Shift_L Z X C V B N M < > BackSpace",
            "Ctrl show_symbols space ? preferences",
        ]),
    );
    layout.views.insert(
        "symbols".into(),
        rows(&["| \\ € £ ¥", "show_letters space BackSpace Return"]),
    );
    layout.buttons.insert(
        "Return".into(),
        button(|b| {
            b.outline = Some("wide".into());
            b.icon = Some("key-enter".into());
            b.keysym = Some(NamedKeysym { name: "Return".into(), raw: xkeysym::key::Return });
        }),
    );
    layout.buttons.insert(
        "BackSpace".into(),
        button(|b| {
            b.outline = Some("wide".into());
            b.icon = Some("edit-clear".into());
            b.action = Some(ActionSpec::Named("erase".into()));
        }),
    );
    layout.buttons.insert(
        "Shift_L".into(),
        button(|b| {
            b.outline = Some("wide".into());
            b.icon = Some("key-shift".into());
            b.action = Some(ActionSpec::Locking {
                locking: LockingSpec { lock_view: "upper".into(), unlock_view: "base".into() },
            });
        }),
    );
    layout.buttons.insert(
        "show_symbols".into(),
        button(|b| {
            b.label = Some("*/=".into());
            b.action = Some(ActionSpec::SetView { set_view: "symbols".into() });
        }),
    );
    layout.buttons.insert(
        "show_letters".into(),
        button(|b| {
            b.label = Some("ABC".into());
            b.action = Some(ActionSpec::SetView { set_view: "base".into() });
        }),
    );
    layout.buttons.insert(
        "preferences".into(),
        button(|b| b.action = Some(ActionSpec::Named("show_prefs".into()))),
    );
    layout.buttons.insert(
        "Ctrl".into(),
        button(|b| b.modifier = Some("Control".into())),
    );
    layout.buttons.insert(
        "space".into(),
        button(|b| {
            b.outline = Some("spaceline".into());
            b.text = Some(" ".into());
        }),
    );
    layout
}

#[test]
fn plain_char_token_resolves_to_its_keysym() {
    for tok in ["q", "1", ",", "."] {
        let c = tok.chars().next().unwrap();
        assert!(
            matches!(resolve_action(tok, None), KeyAction::EmitKeysym(ks) if ks == xkeysym::Keysym::from_char(c).raw()),
            "token {tok:?} should emit its own keysym",
        );
    }
}

#[test]
fn explicit_keysym_field_wins() {
    let b = button(|b| {
        b.keysym = Some(NamedKeysym { name: "Return".into(), raw: xkeysym::key::Return })
    });
    let want = xkeysym::key::Return;
    assert!(
        matches!(resolve_action("Return", Some(&b)), KeyAction::EmitKeysym(ks) if ks == want)
    );
}

#[test]
fn erase_action_maps_to_backspace() {
    let b = button(|b| b.action = Some(ActionSpec::Named("erase".into())));
    let want = xkeysym::key::BackSpace;
    assert!(
        matches!(resolve_action("BackSpace", Some(&b)), KeyAction::EmitKeysym(ks) if ks == want)
    );
}

#[test]
fn text_field_resolves_to_emit_text() {
    let b = button(|b| b.text = Some(" ".into()));
    assert!(matches!(resolve_action("space", Some(&b)), KeyAction::EmitText(t) if t == " "));
}

#[test]
fn set_view_action_resolves_to_setview() {
    let b = button(|b| {
        b.action = Some(ActionSpec::SetView { set_view: "symbols".into() })
    });
    assert!(matches!(
        resolve_action("show_symbols", Some(&b)),
        KeyAction::SetView(v) if v == "symbols"
    ));
}

#[test]
fn locking_action_resolves_to_toggleview() {
    let b = button(|b| {
        b.action = Some(ActionSpec::Locking {
            locking: LockingSpec { lock_view: "upper".into(), unlock_view: "base".into() },
        })
    });
    assert!(matches!(
        resolve_action("Shift_L", Some(&b)),
        KeyAction::ToggleView { lock, unlock } if lock == "upper" && unlock == "base"
    ));
}

#[test]
fn deferred_actions_are_unhandled() {
    // An unrecognised structured action, a bare non-erase action, and an unwired
    // modifier all defer — none should type or switch.
    let unknown = button(|b| b.action = Some(ActionSpec::Other));
    assert!(matches!(
        resolve_action("mystery", Some(&unknown)),
        KeyAction::Unhandled(_)
    ));

    let prefs = button(|b| b.action = Some(ActionSpec::Named("show_prefs".into())));
    assert!(matches!(
        resolve_action("preferences", Some(&prefs)),
        KeyAction::Unhandled(_)
    ));

    // Alt is a modifier, but not wired to latch — still deferred.
    let alt = button(|b| b.modifier = Some("Alt".into()));
    assert!(matches!(
        resolve_action("Alt", Some(&alt)),
        KeyAction::Unhandled(_)
    ));
}

#[test]
fn control_modifier_latches() {
    let ctrl = button(|b| b.modifier = Some("Control".into()));
    assert!(matches!(
        resolve_action("Ctrl", Some(&ctrl)),
        KeyAction::LatchModifier(m) if m == "Control"
    ));
}

#[test]
fn fallback_structured_actions_resolve() {
    // End-to-end: the structured actions must reach their view-switch variants.
    let layout = fallback_layout();
    let keymap = Keymap::from_layout(&layout, &no_icons());

    let has_set_view = keymap
        .keys()
        .iter()
        .any(|k| matches!(&k.action, KeyAction::SetView(v) if v == "symbols"));
    assert!(has_set_view, "a `set_view: symbols` key should be SetView");

    let has_toggle = keymap.keys().iter().any(|k| {
        matches!(&k.action, KeyAction::ToggleView { lock, unlock } if lock == "upper" && unlock == "base")
    });
    assert!(has_toggle, "Shift_L should be ToggleView upper/base");
}

#[test]
fn fallback_layout_base_view_has_expected_actions() {
    let layout = fallback_layout();
    let keymap = Keymap::from_layout(&layout, &no_icons());
    let base = keymap.view("base").expect("base view exists");

    // Every base-view key resolves to *some* action, and the ones that type are
    // keysym/text — no base key is left ambiguous.
    let typeable = base
        .keys()
        .iter()
        .filter(|k| matches!(k.action, KeyAction::EmitKeysym(_) | KeyAction::EmitText(_)))
        .count();
    assert!(
        typeable >= 40,
        "base view should have many typeable keys, got {typeable}"
    );
    assert_eq!(typeable, 49);
}

#[test]
fn unknown_keysym_names_type_nothing() {
    let b = button(|b| {
        b.keysym = Some(NamedKeysym { name: "Nonsense".into(), raw: 0 });
        b.text = Some("x".into());
    });
    assert!(matches!(resolve_action("x", Some(&b)), KeyAction::Unhandled(t) if t == "x"));
}

#[test]
fn labels_and_tokens_type_when_nothing_else_is_said() {
    let label = button(|b| b.label = Some("a".into()));
    assert!(matches!(resolve_action("token", Some(&label)), KeyAction::EmitKeysym(0x61)));
    let long = button(|b| b.label = Some("Quit".into()));
    assert!(matches!(resolve_action("q", Some(&long)), KeyAction::EmitKeysym(0x71)));
    assert!(matches!(resolve_action("qq", Some(&long)), KeyAction::Unhandled(t) if t == "qq"));
    assert!(matches!(resolve_action("", None), KeyAction::Unhandled(t) if t.is_empty()));
    // A character outside Latin-1 has a keysym of its own.
    assert!(matches!(resolve_action("ж", None), KeyAction::EmitKeysym(ks) if ks == xkeysym::key::Cyrillic_zhe));
    // A noncharacter has none.
    assert!(matches!(resolve_action("\u{ffff}", None), KeyAction::Unhandled(_)));
}

#[test]
fn named_actions_report_their_name() {
    let prefs = button(|b| b.action = Some(ActionSpec::Named("show_prefs".into())));
    assert!(matches!(resolve_action("preferences", Some(&prefs)), KeyAction::Unhandled(t) if t == "show_prefs"));
    let unknown = button(|b| b.action = Some(ActionSpec::Other));
    assert!(matches!(resolve_action("mystery", Some(&unknown)), KeyAction::Unhandled(t) if t == "mystery"));
}

#[test]
fn icons_win_over_labels() {
    let region = SpriteRegion { x: Px(1.0), y: Px(2.0), w: Px(3.0), h: Px(4.0) };
    let mut icons = NameMap::new();
    icons.insert("key-enter".to_string(), region);

    let both = button(|b| {
        b.icon = Some("key-enter".into());
        b.label = Some("Enter".into());
    });
    assert!(matches!(resolve_face("Return", Some(&both), &icons), KeyFace::Icon(r) if r.x == Px(1.0) && r.h == Px(4.0)));

    let absent = button(|b| b.icon = Some("no-such-icon".into()));
    assert!(matches!(resolve_face("Return", Some(&absent), &icons), KeyFace::Text(t) if t.is_empty()));

    let label = button(|b| b.label = Some("Enter".into()));
    assert!(matches!(resolve_face("Return", Some(&label), &icons), KeyFace::Text(t) if t == "Enter"));
    assert!(matches!(resolve_face("q", None, &icons), KeyFace::Text(t) if t == "q"));
    assert!(matches!(resolve_face("q", Some(&Button::default()), &icons), KeyFace::Text(t) if t == "q"));
}

#[test]
fn outlines_fall_back() {
    let mut layout = empty_layout();
    let wide = button(|b| b.outline = Some("wide".into()));
    // Nothing defined: a hard fallback.
    let o = resolve_outline(&layout, Some(&wide));
    assert_eq!((o.width, o.height), (Px(50.0), Px(50.0)));
    // The default outline stands in for a missing one.
    layout.outlines.insert("default".into(), size(54.0, 60.0));
    let o = resolve_outline(&layout, Some(&wide));
    assert_eq!((o.width, o.height), (Px(54.0), Px(60.0)));
    let o = resolve_outline(&layout, None);
    assert_eq!((o.width, o.height), (Px(54.0), Px(60.0)));
    // The named one wins.
    layout.outlines.insert("wide".into(), size(81.0, 60.0));
    let o = resolve_outline(&layout, Some(&wide));
    assert_eq!((o.width, o.height), (Px(81.0), Px(60.0)));
}

fn corners(view: &View<Px>) -> Vec<(f32, f32, f32, f32)> {
    view.keys()
        .iter()
        .map(|k| (k.rect.x.0, k.rect.y.0, k.rect.width.0, k.rect.height.0))
        .collect()
}

#[test]
fn keys_flow_and_rows_are_centred() {
    let mut layout = empty_layout();
    layout.outlines.insert("default".into(), size(10.0, 20.0));
    layout.outlines.insert("big".into(), size(25.0, 30.0));
    layout.buttons.insert("B".into(), button(|b| b.outline = Some("big".into())));
    let view = View::resolve(&layout, &no_icons(), "v", &rows(&["a b c", "  B\td ", "", "e"]));
    assert_eq!(view.name, "v");
    assert_eq!(view.rows.len(), 4);
    assert_eq!(view.rows[2].keys().len(), 0);
    assert_eq!(
        corners(&view),
        vec![
            // The first row is 30 wide in a view of 35: it begins at 2.5.
            (2.5, 0.0, 10.0, 20.0),
            (12.5, 0.0, 10.0, 20.0),
            (22.5, 0.0, 10.0, 20.0),
            // The second is the widest, and as tall as its tallest key.
            (0.0, 20.0, 25.0, 30.0),
            (25.0, 20.0, 10.0, 20.0),
            // An empty row takes no height.
            (12.5, 50.0, 10.0, 20.0),
        ]
    );
    assert_eq!(view.width(), Px(35.0));
    assert_eq!(view.height(), Px(70.0));
    for key in view.keys() {
        let Rect { x, y, width, height } = key.touch_area;
        assert_eq!((x, y, width, height), (key.rect.x, key.rect.y, key.rect.width, key.rect.height));
    }
}

#[test]
fn empty_views_have_no_extent() {
    let layout = empty_layout();
    let view = View::resolve(&layout, &no_icons(), "v", &rows(&[]));
    assert_eq!(view.width(), Px(0.0));
    assert_eq!(view.height(), Px(0.0));
    assert!(view.keys().is_empty());
}

#[test]
fn views_stand_in_the_order_of_their_names() {
    let keymap = Keymap::from_layout(&fallback_layout(), &no_icons());
    let names: Vec<&str> = keymap.views.iter().map(|v| v.name.as_str()).collect();
    assert_eq!(names, vec!["base", "symbols", "upper"]);
    for (i, view) in keymap.views.iter().enumerate() {
        assert_eq!(keymap.index_of(&view.name), Some(i));
        assert_eq!(keymap.view(&view.name).unwrap().name, view.name);
    }
    assert_eq!(keymap.index_of("nowhere"), None);
    assert!(keymap.view("nowhere").is_none());
    assert_eq!(keymap.keys().len(), 53 + 53 + 9);
}

#[test]
fn labels_for_reports() {
    let mut icons = no_icons();
    icons.insert(
        "key-shift".into(),
        SpriteRegion { x: Px(0.0), y: Px(0.0), w: Px(8.0), h: Px(8.0) },
    );
    let keymap = Keymap::from_layout(&fallback_layout(), &icons);
    let base = keymap.view("base").unwrap();
    assert_eq!(base.rows[1].keys()[0].display_label(), "q");
    assert_eq!(base.rows[3].keys()[0].display_label(), "[icon]");
    // An icon that is not in the dictionary leaves an empty face.
    assert_eq!(base.rows[3].keys()[10].display_label(), "");
    assert_eq!(base.rows[4].keys()[1].display_label(), "*/=");
}

#[test]
fn actions_can_be_cloned() {
    for action in [
        KeyAction::EmitKeysym(7),
        KeyAction::EmitText("x".into()),
        KeyAction::SetView("base".into()),
        KeyAction::ToggleView { lock: "upper".into(), unlock: "base".into() },
        KeyAction::LatchModifier("Control".into()),
        KeyAction::Unhandled("?".into()),
    ] {
        assert_eq!(format!("{:?}", action.clone()), format!("{:?}", action));
    }
}

#[test]
fn extents_follow_the_rows_whatever_the_heights() {
    let mut layout = empty_layout();
    layout.outlines.insert("default".into(), size(10.0, 20.0));
    layout.outlines.insert("sunken".into(), size(10.0, -5.0));
    layout.buttons.insert("x".into(), button(|b| b.outline = Some("sunken".into())));
    let lines = rows(&["a x", "x x x", "b"]);
    let view = View::resolve(&layout, &no_icons(), "odd", &lines);
    assert_eq!(view.width(), Px(30.0));
    assert_eq!(view.height(), Px(40.0));
    // A row of which every key is below nothing takes no height.
    assert_eq!(view.rows[2].keys()[0].rect.y, Px(20.0));
}
