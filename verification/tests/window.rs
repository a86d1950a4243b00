use mechanix_keyboard::flow::Outline;
use mechanix_keyboard::input::{
    action_at, dispatch_action, key_at, on_pointer, on_touch, switch_view, Effects,
};
use mechanix_keyboard::layout::{
    ActionSpec, Button, KeyAction, Keymap, Layout, LockingSpec, SpriteRegion,
};
use mechanix_keyboard::names::NameMap;
use mechanix_keyboard::render::{
    alloc_slots, draw_frame, draw_view, install_slots, on_buffer_release, present, render,
    split_modifier, DrawCommand, RenderStep, Slot, Typeface,
};
use mechanix_keyboard::scalar::{scale_rect, Rect, Scalar};
use mechanix_keyboard::sizing::{
    handle_rect, on_configure, toggle_visibility, view_and_factor, BufferSize, SizeOverflow,
};
use mechanix_keyboard::state::{layout_source, LayoutSource, MechanixKeyboardState, INITIAL_VIEW};
use mechanix_keyboard::virtual_keyboard::{KeySyms, KeyTable, Keystroke};
use mechanix_keyboard::window::{
    create_window, on_callback, on_output, on_registry, on_seat, CallbackOutcome, Devices, Global,
    GlobalKind, SurfaceRequest, HANDLE_HEIGHT,
};

#[derive(Debug, Clone, Copy, PartialEq)]
struct Px(f32);

impl Scalar for Px {
    fn from_u32(n: u32) -> Self {
        Px(n as f32)
    }
    fn plus(self, other: Self) -> Self {
        Px(self.0 + other.0)
    }
    fn minus(self, other: Self) -> Self {
        Px(self.0 - other.0)
    }
    fn times(self, other: Self) -> Self {
        Px(self.0 * other.0)
    }
    fn over(self, other: Self) -> Self {
        Px(self.0 / other.0)
    }
    fn larger(self, other: Self) -> Self {
        Px(self.0.max(other.0))
    }
    fn is_positive(self) -> bool {
        self.0 > 0.0
    }
    fn rounded(self) -> u32 {
        self.0.round() as u32
    }
}

type State = MechanixKeyboardState<Px>;

/// A hit test for the point (`x`, `y`).
fn at(x: f32, y: f32) -> impl Fn(Rect<Px>) -> bool {
    move |r| r.x.0 <= x && x < r.x.0 + r.width.0 && r.y.0 <= y && y < r.y.0 + r.height.0
}

fn nowhere(_: Rect<Px>) -> bool {
    false
}

/// No button went down.
fn no_press() -> Option<&'static fn(Rect<Px>) -> bool> {
    None
}

fn four(r: Rect<Px>) -> (f32, f32, f32, f32) {
    (r.x.0, r.y.0, r.width.0, r.height.0)
}

/// Two views of two rows: 100 wide and 60 tall.
fn keymap() -> Keymap<Px> {
    let mut layout =
        Layout { outlines: NameMap::new(), views: NameMap::new(), buttons: NameMap::new() };
    layout.outlines.insert("default".into(), Outline { width: Px(50.0), height: Px(30.0) });
    layout.views.insert("base".into(), vec!["q Shift_L".into(), "Ctrl mystery".into()]);
    layout.views.insert("upper".into(), vec!["Q Shift_L".into(), "Ctrl mystery".into()]);
    layout.buttons.insert(
        "Shift_L".into(),
        Button {
            icon: Some("key-shift".into()),
            action: Some(ActionSpec::Locking {
                locking: LockingSpec { lock_view: "upper".into(), unlock_view: "base".into() },
            }),
            ..Button::default()
        },
    );
    layout.buttons.insert(
        "Ctrl".into(),
        Button { modifier: Some("Control".into()), ..Button::default() },
    );
    layout.buttons.insert(
        "mystery".into(),
        Button { label: Some("  ".into()), action: Some(ActionSpec::Other), ..Button::default() },
    );
    let mut icons = NameMap::new();
    icons.insert(
        "key-shift".to_string(),
        SpriteRegion { x: Px(0.0), y: Px(0.0), w: Px(8.0), h: Px(8.0) },
    );
    Keymap::from_layout(&layout, &icons)
}

fn bind_all(s: &mut State) {
    for (i, interface) in [
        "wl_compositor",
        "zwlr_layer_shell_v1",
        "wl_output",
        "zwp_linux_dmabuf_v1",
        "wl_seat",
        "zwp_virtual_keyboard_manager_v1",
    ]
    .iter()
    .enumerate()
    {
        on_registry(s, interface, Global { name: i as u32 + 1, version: 3 });
    }
}

/// A hidden bar, 200 wide, with its buffers.
fn hidden_bar() -> State {
    let mut s = State::new();
    bind_all(&mut s);
    s.load_keymap(keymap());
    s.install_virtual_keyboard(&KeyTable {
        min_keycode: 24,
        keys: vec![KeySyms { base: vec![0x71], shifted: vec![0x51] }],
        shift_index: 0,
        control_index: 2,
    });
    assert!(create_window(&mut s).is_some());
    let outcome = on_configure(&mut s, 1, 200).unwrap();
    assert_eq!(outcome.alloc, Some(BufferSize { width: 200, height: 40 }));
    install_slots(&mut s, [10, 11]);
    s
}

/// The same bar, shown: the keyboard is 120 tall, and the Handle is below it.
fn shown_bar() -> State {
    let mut s = hidden_bar();
    toggle_visibility(&mut s).unwrap();
    let outcome = on_configure(&mut s, 2, 200).unwrap();
    assert_eq!(outcome.alloc, Some(BufferSize { width: 200, height: 160 }));
    install_slots(&mut s, [12, 13]);
    s
}

fn is_nothing(e: &Effects) -> bool {
    e.requests.is_empty() && e.strokes.is_empty() && !e.repaint
}

#[test]
fn a_new_keyboard_knows_nothing() {
    let s = State::new();
    assert_eq!(s.scale, 1);
    assert_eq!(s.current_view, 0);
    assert!(s.window.is_none() && s.keymap.is_none() && s.last_hover.is_none());
    assert!(s.current_view().is_none());
    assert!(s.frame_callbacks.is_empty() && !s.atlas_texture);
    assert!(s.globals.seat.is_none() && !s.globals.virtual_keyboard);
}

#[test]
fn globals_are_bound_by_interface() {
    let mut s = State::new();
    let g = Global { name: 7, version: 2 };
    assert_eq!(on_registry(&mut s, "wl_compositor", g), Some(GlobalKind::Compositor));
    assert_eq!(s.globals.compositor, Some(g));
    assert_eq!(on_registry(&mut s, "zwlr_layer_shell_v1", g), Some(GlobalKind::LayerShell));
    assert_eq!(s.globals.layer_shell, Some(g));
    assert_eq!(on_registry(&mut s, "wl_output", g), Some(GlobalKind::Output));
    assert_eq!(s.globals.output, Some(g));
    assert_eq!(on_registry(&mut s, "zwp_linux_dmabuf_v1", g), Some(GlobalKind::Dmabuf));
    assert_eq!(s.globals.dmabuf, Some(g));
    assert_eq!(on_registry(&mut s, "wl_seat", g), Some(GlobalKind::Seat));
    assert_eq!(s.globals.seat, Some(g));
    assert_eq!(
        on_registry(&mut s, "zwp_virtual_keyboard_manager_v1", g),
        Some(GlobalKind::VirtualKeyboardManager)
    );
    assert_eq!(s.globals.virtual_keyboard_manager, Some(g));
    assert_eq!(on_registry(&mut s, "wl_shm", g), None);
    // A later one takes the place of an earlier one.
    let later = Global { name: 9, version: 4 };
    on_registry(&mut s, "wl_seat", later);
    assert_eq!(s.globals.seat, Some(later));
}

#[test]
fn devices_are_asked_for_once() {
    let mut s = State::new();
    let all = Devices { keyboard: true, pointer: true, touch: true };
    let none = Devices { keyboard: false, pointer: false, touch: false };
    assert_eq!(on_seat(&mut s, all), none);
    bind_all(&mut s);
    let touch = Devices { touch: true, ..none };
    assert_eq!(on_seat(&mut s, touch), touch);
    assert_eq!(on_seat(&mut s, all), Devices { touch: false, ..all });
    assert_eq!(on_seat(&mut s, all), none);
}

#[test]
fn scales_above_zero_count() {
    let mut s = State::new();
    on_output(&mut s, 2);
    assert_eq!(s.scale, 2);
    on_output(&mut s, 0);
    on_output(&mut s, -3);
    assert_eq!(s.scale, 2);
}

#[test]
fn the_surface_is_created_once() {
    let mut s = State::new();
    assert!(create_window(&mut s).is_none());
    bind_all(&mut s);
    assert_eq!(
        create_window(&mut s),
        Some(vec![
            SurfaceRequest::SetSize { width: 0, height: 40 },
            SurfaceRequest::AnchorToBottom,
            SurfaceRequest::SetExclusiveZone(40),
            SurfaceRequest::NoKeyboardInteractivity,
            SurfaceRequest::Commit,
        ])
    );
    let window = s.window.as_ref().unwrap();
    assert!(!window.visible && window.slots.is_none() && !window.pending_frame);
    assert_eq!((window.requested_height, window.logical_width, window.back), (HANDLE_HEIGHT, 0, 0));
    assert!(create_window(&mut s).is_none());
}

#[test]
fn callbacks_repaint_or_create() {
    let mut s = State::new();
    bind_all(&mut s);
    s.frame_callbacks.insert(5);
    assert!(matches!(on_callback(&mut s, None), CallbackOutcome::Nothing));
    assert!(matches!(on_callback(&mut s, Some(5)), CallbackOutcome::Render));
    assert!(s.frame_callbacks.is_empty());
    assert!(matches!(on_callback(&mut s, Some(5)), CallbackOutcome::Create(r) if r.len() == 5));
    assert!(matches!(on_callback(&mut s, Some(6)), CallbackOutcome::Nothing));
}

#[test]
fn keymaps_start_on_the_initial_view() {
    let mut s = State::new();
    s.current_view = 0;
    s.load_keymap(keymap());
    assert_eq!(s.current_view().unwrap().name, INITIAL_VIEW);
    // Without it, on the first.
    let mut other = keymap();
    other.views.remove(0);
    s.load_keymap(other);
    assert_eq!(s.current_view, 0);
    assert_eq!(s.current_view().unwrap().name, "upper");
    // And an empty keymap has none.
    s.load_keymap(Keymap { views: vec![] });
    assert!(s.current_view().is_none());
}

#[test]
fn layouts_come_from_the_environment_first() {
    assert!(matches!(layout_source(Some("x.yaml".into()), true), LayoutSource::Path(p) if p == "x.yaml"));
    assert!(matches!(layout_source(None, true), LayoutSource::Local));
    assert!(matches!(layout_source(None, false), LayoutSource::Fallback));
}

#[test]
fn configure_is_ignored_until_everything_is_there() {
    let mut s = State::new();
    on_registry(&mut s, "wl_compositor", Global { name: 1, version: 1 });
    on_registry(&mut s, "zwlr_layer_shell_v1", Global { name: 2, version: 1 });
    create_window(&mut s);
    let o = on_configure(&mut s, 9, 200).unwrap();
    assert!(o.requests.is_empty() && o.alloc.is_none() && !o.render);
    on_registry(&mut s, "zwp_linux_dmabuf_v1", Global { name: 3, version: 1 });
    let o = on_configure(&mut s, 9, 200).unwrap();
    assert!(o.requests.is_empty() && o.alloc.is_none() && !o.render);
    // A view without width is as good as none.
    s.load_keymap(Keymap::from_layout(
        &Layout {
            outlines: NameMap::new(),
            views: {
                let mut views = NameMap::new();
                views.insert("base".to_string(), vec![String::new()]);
                views
            },
            buttons: NameMap::new(),
        },
        &NameMap::new(),
    ));
    let o = on_configure(&mut s, 9, 200).unwrap();
    assert!(o.requests.is_empty() && o.alloc.is_none() && !o.render);
    s.load_keymap(keymap());
    let o = on_configure(&mut s, 9, 200).unwrap();
    assert_eq!(
        o.requests,
        vec![SurfaceRequest::AckConfigure(9), SurfaceRequest::SetBufferScale(1)]
    );
    assert!(o.render);
}

#[test]
fn configure_settles_the_height() {
    let mut s = hidden_bar();
    // Nothing changed: only present.
    let o = on_configure(&mut s, 3, 200).unwrap();
    assert_eq!(o.requests, vec![SurfaceRequest::AckConfigure(3)]);
    assert!(o.alloc.is_none() && o.render);
    // Shown, and then granted another width: the height is asked for again.
    toggle_visibility(&mut s).unwrap();
    let o = on_configure(&mut s, 4, 300).unwrap();
    assert_eq!(
        o.requests,
        vec![
            SurfaceRequest::AckConfigure(4),
            SurfaceRequest::SetSize { width: 0, height: 220 },
            SurfaceRequest::Commit,
        ]
    );
    assert!(o.alloc.is_none() && !o.render);
    // The next one presents it, at two pixels to the unit.
    on_output(&mut s, 2);
    let o = on_configure(&mut s, 5, 0).unwrap();
    assert_eq!(
        o.requests,
        vec![SurfaceRequest::AckConfigure(5), SurfaceRequest::SetBufferScale(2)]
    );
    assert_eq!(o.alloc, Some(BufferSize { width: 600, height: 440 }));
    let window = s.window.as_ref().unwrap();
    assert_eq!((window.logical_width, window.logical_height), (300, 220));
    assert_eq!((window.physical_width, window.physical_height), (600, 440));
}

#[test]
fn a_keyboard_without_height_is_only_acknowledged() {
    let mut s = hidden_bar();
    s.window.as_mut().unwrap().visible = true;
    if let Some(keymap) = s.keymap.as_mut() {
        for row in &mut keymap.views[0].rows {
            for key in &mut row.keys {
                key.rect.y = Px(0.0);
                key.rect.height = Px(0.1);
            }
        }
    }
    let o = on_configure(&mut s, 6, 100).unwrap();
    assert_eq!(o.requests, vec![SurfaceRequest::AckConfigure(6)]);
    assert!(o.alloc.is_none() && !o.render);
    assert_eq!(s.window.as_ref().unwrap().logical_width, 100);
    assert_eq!(s.window.as_ref().unwrap().requested_height, 40);
}

#[test]
fn sizes_that_do_not_fit_are_refused() {
    let mut s = hidden_bar();
    on_output(&mut s, 1_000_000);
    assert!(matches!(on_configure(&mut s, 7, 5000), Err(SizeOverflow)));
    assert_eq!(s.window.as_ref().unwrap().logical_width, 200);
    on_output(&mut s, 1);
    if let Some(keymap) = s.keymap.as_mut() {
        keymap.views[0].rows[0].keys[0].rect.height = Px(1.0e12);
    }
    assert!(matches!(toggle_visibility(&mut s), Err(SizeOverflow)));
    assert!(!s.window.as_ref().unwrap().visible);
    s.window.as_mut().unwrap().visible = true;
    assert!(matches!(on_configure(&mut s, 8, 200), Err(SizeOverflow)));
}

#[test]
fn toggling_asks_for_the_matching_height() {
    let mut s = hidden_bar();
    assert_eq!(
        toggle_visibility(&mut s).unwrap(),
        vec![SurfaceRequest::SetSize { width: 0, height: 160 }, SurfaceRequest::Commit]
    );
    assert!(s.window.as_ref().unwrap().visible);
    assert_eq!(
        toggle_visibility(&mut s).unwrap(),
        vec![SurfaceRequest::SetSize { width: 0, height: 40 }, SurfaceRequest::Commit]
    );
    assert!(!s.window.as_ref().unwrap().visible);
    assert_eq!(s.window.as_ref().unwrap().requested_height, 40);
    // Nothing to toggle before there is a size or a view.
    let mut s = State::new();
    assert!(toggle_visibility(&mut s).unwrap().is_empty());
    bind_all(&mut s);
    create_window(&mut s);
    assert!(toggle_visibility(&mut s).unwrap().is_empty());
    s.load_keymap(keymap());
    assert!(toggle_visibility(&mut s).unwrap().is_empty());
    assert!(!s.window.as_ref().unwrap().visible);
}

#[test]
fn the_handle_is_the_bottom_band() {
    assert!(handle_rect(&State::new()).is_none());
    assert_eq!(four(handle_rect(&hidden_bar()).unwrap()), (0.0, 0.0, 200.0, 40.0));
    let s = shown_bar();
    let handle = handle_rect(&s).unwrap();
    assert_eq!(four(handle), (0.0, 120.0, 200.0, 40.0));
    // No touch area reaches into it.
    let (view, f) = view_and_factor(&s).unwrap();
    assert_eq!(f, Px(2.0));
    for key in view.keys() {
        assert!(scale_rect(key.touch_area, f).bottom().0 <= handle.y.0);
    }
}

#[test]
fn the_first_key_under_a_point_is_hit() {
    let s = shown_bar();
    let (view, f) = view_and_factor(&s).unwrap();
    assert_eq!(key_at(view, f, &at(10.0, 10.0)), Some("q".to_string()));
    assert_eq!(key_at(view, f, &at(110.0, 10.0)), Some("[icon]".to_string()));
    assert_eq!(key_at(view, f, &nowhere), None);
    // Where everything is hit, the first key is.
    assert_eq!(key_at(view, f, &|_| true), Some("q".to_string()));
    assert!(matches!(action_at(view, f, &at(10.0, 70.0)), Some(KeyAction::LatchModifier(m)) if m == "Control"));
    assert!(action_at(view, f, &nowhere).is_none());
    assert!(view_and_factor(&State::new()).is_none());
}

#[test]
fn taps_type() {
    let mut s = shown_bar();
    let e = on_touch(&mut s, &at(10.0, 10.0)).unwrap();
    assert_eq!(e.strokes, vec![Keystroke { code: 16, mods: 0 }]);
    assert!(e.requests.is_empty() && !e.repaint);
    assert!(is_nothing(&on_touch(&mut s, &nowhere).unwrap()));
}

#[test]
fn taps_toggle_views_and_back() {
    let mut s = shown_bar();
    let e = on_touch(&mut s, &at(110.0, 10.0)).unwrap();
    assert!(e.repaint && e.strokes.is_empty());
    assert_eq!(s.current_view().unwrap().name, "upper");
    let e = on_touch(&mut s, &at(10.0, 10.0)).unwrap();
    assert_eq!(e.strokes, vec![Keystroke { code: 16, mods: 1 }]);
    let e = on_touch(&mut s, &at(110.0, 10.0)).unwrap();
    assert!(e.repaint);
    assert_eq!(s.current_view().unwrap().name, "base");
}

#[test]
fn taps_latch_and_typing_consumes() {
    let mut s = shown_bar();
    let e = on_touch(&mut s, &at(10.0, 70.0)).unwrap();
    assert!(e.repaint && e.strokes.is_empty());
    assert!(s.virtual_keyboard_state.is_latched("Control"));
    // An unwired key does nothing and keeps the latch.
    assert!(is_nothing(&on_touch(&mut s, &at(110.0, 70.0)).unwrap()));
    assert!(s.virtual_keyboard_state.is_latched("Control"));
    let e = on_touch(&mut s, &at(10.0, 10.0)).unwrap();
    assert_eq!(e.strokes, vec![Keystroke { code: 16, mods: 4 }]);
    assert!(e.repaint);
    assert!(s.virtual_keyboard_state.latched.is_empty());
    // A key that cannot be typed keeps the latch, and its highlight.
    dispatch_action(&mut s, &KeyAction::LatchModifier("Control".into()));
    assert!(is_nothing(&dispatch_action(&mut s, &KeyAction::EmitKeysym(0x61))));
    assert!(s.virtual_keyboard_state.is_latched("Control"));
}

#[test]
fn a_tap_on_the_handle_toggles_in_either_state() {
    let mut s = hidden_bar();
    let e = on_touch(&mut s, &at(10.0, 10.0)).unwrap();
    assert_eq!(
        e.requests,
        vec![SurfaceRequest::SetSize { width: 0, height: 160 }, SurfaceRequest::Commit]
    );
    assert!(e.strokes.is_empty() && !e.repaint);
    let mut s = shown_bar();
    let e = on_touch(&mut s, &at(10.0, 130.0)).unwrap();
    assert_eq!(e.requests.len(), 2);
    assert!(!s.window.as_ref().unwrap().visible);
    // It comes before any key.
    let mut s = shown_bar();
    let e = on_touch(&mut s, &|_| true).unwrap();
    assert!(e.strokes.is_empty() && e.requests.len() == 2);
}

#[test]
fn keys_are_dead_while_hidden() {
    let mut s = shown_bar();
    toggle_visibility(&mut s).unwrap();
    assert!(is_nothing(&on_touch(&mut s, &at(10.0, 10.0)).unwrap()));
    let press = at(10.0, 10.0);
    assert!(is_nothing(&on_pointer(&mut s, &nowhere, Some(&press)).unwrap()));
}

#[test]
fn views_switch_by_name() {
    let mut s = shown_bar();
    assert!(!switch_view(&mut s, "base"));
    assert!(!switch_view(&mut s, "nowhere"));
    assert!(switch_view(&mut s, "upper"));
    assert_eq!(s.current_view, 1);
    assert!(!switch_view(&mut s, "upper"));
    assert!(!switch_view(&mut State::new(), "base"));
    // A switch leaves the window as it is, and stays.
    let e = dispatch_action(&mut s, &KeyAction::SetView("base".into()));
    assert!(e.repaint && e.requests.is_empty());
    assert!(is_nothing(&dispatch_action(&mut s, &KeyAction::SetView("base".into()))));
    assert!(is_nothing(&dispatch_action(&mut s, &KeyAction::Unhandled("x".into()))));
    assert!(dispatch_action(&mut s, &KeyAction::LatchModifier("Hyper".into())).repaint);
}

#[test]
fn clicks_type_and_hovering_is_followed() {
    let mut s = shown_bar();
    let over = at(110.0, 10.0);
    assert!(is_nothing(&on_pointer(&mut s, &over, no_press()).unwrap()));
    assert_eq!(s.last_hover.as_deref(), Some("[icon]"));
    let press = at(10.0, 10.0);
    let e = on_pointer(&mut s, &press, Some(&press)).unwrap();
    assert_eq!(e.strokes, vec![Keystroke { code: 16, mods: 0 }]);
    assert_eq!(s.last_hover.as_deref(), Some("q"));
    on_pointer(&mut s, &nowhere, no_press()).unwrap();
    assert_eq!(s.last_hover, None);
    // A click on the Handle leaves the hover; the hidden bar clears it.
    on_pointer(&mut s, &press, no_press()).unwrap();
    let handle = at(10.0, 130.0);
    let e = on_pointer(&mut s, &handle, Some(&handle)).unwrap();
    assert_eq!(e.requests.len(), 2);
    assert_eq!(s.last_hover.as_deref(), Some("q"));
    on_pointer(&mut s, &press, no_press()).unwrap();
    assert_eq!(s.last_hover, None);
}

#[test]
fn frames_swap_buffers() {
    let mut s = State::new();
    assert_eq!(render(&mut s), RenderStep::Skip);
    bind_all(&mut s);
    create_window(&mut s);
    assert_eq!(render(&mut s), RenderStep::Skip);
    let mut s = hidden_bar();
    let draw = |slot| RenderStep::Draw { slot, logical_width: 200, logical_height: 40 };
    assert_eq!(render(&mut s), draw(0));
    present(&mut s, Some(31));
    assert!(s.frame_callbacks.contains(&31));
    assert_eq!(render(&mut s), draw(1));
    present(&mut s, None);
    assert_eq!(s.frame_callbacks.len(), 1);
    // Both are held: the frame waits, until its buffer comes back.
    assert_eq!(render(&mut s), RenderStep::Defer);
    assert!(s.window.as_ref().unwrap().pending_frame);
    assert!(on_buffer_release(&mut s, Some(11)));
    assert_eq!(render(&mut s), RenderStep::Defer);
    assert!(!on_buffer_release(&mut s, None));
    assert!(on_buffer_release(&mut s, Some(10)));
    assert_eq!(render(&mut s), draw(0));
    present(&mut s, None);
    assert!(!on_buffer_release(&mut s, Some(10)));
    assert_eq!(
        s.window.as_ref().unwrap().slots,
        Some([Slot { buffer_id: 10, released: true }, Slot { buffer_id: 11, released: true }])
    );
    assert!(!on_buffer_release(&mut State::new(), Some(1)));
    assert_eq!(alloc_slots([4, 5])[1], Slot { buffer_id: 5, released: true });
}

/// Every character is 4 wide, and the baseline is at three quarters of the height.
struct Mono;

impl Typeface<Px> for Mono {
    fn measure_width(&self, text: &str) -> Px {
        Px(text.chars().count() as f32 * 4.0)
    }
    fn baseline_offset(&self, height: Px) -> Px {
        Px(height.0 * 0.75)
    }
}

fn show(command: &DrawCommand<Px>) -> String {
    match command {
        DrawCommand::Clear => "clear".into(),
        DrawCommand::KeyBox { rect, armed } => format!("box {:?} {}", four(*rect), armed),
        DrawCommand::Label { text, x, baseline, armed } => {
            format!("label {} {} {} {}", text, x.0, baseline.0, armed)
        }
        DrawCommand::Icon { region, x, y, side, armed } => {
            format!("icon {} {} {} {} {}", region.w.0, x.0, y.0, side.0, armed)
        }
        DrawCommand::Handle { rect } => format!("handle {:?}", four(*rect)),
    }
}

#[test]
fn frames_show_keys_and_the_handle() {
    let mut s = shown_bar();
    s.atlas_texture = true;
    dispatch_action(&mut s, &KeyAction::LatchModifier("Control".into()));
    let shown: Vec<String> = draw_frame(&s, &Mono).iter().map(show).collect();
    assert_eq!(
        shown,
        vec![
            "clear",
            // 50 by 30 at two pixels to the unit, less an inset of 4 on each side.
            "box (4.0, 4.0, 92.0, 52.0) false",
            "label q 48 43 false",
            "box (104.0, 4.0, 92.0, 52.0) false",
            "icon 8 137 17 26 false",
            "box (4.0, 64.0, 92.0, 52.0) true",
            "label Ctrl 42 103 true",
            // A blank label draws no text.
            "box (104.0, 64.0, 92.0, 52.0) false",
            "handle (0.0, 120.0, 200.0, 40.0)",
        ]
    );
}

#[test]
fn without_an_atlas_only_boxes_are_drawn() {
    let s = shown_bar();
    let (view, _) = view_and_factor(&s).unwrap();
    let drawn = draw_view(view, &s.virtual_keyboard_state, &Mono, false, Px(100.0));
    let shown: Vec<String> = drawn.iter().map(show).collect();
    assert_eq!(
        shown,
        vec![
            "box (2.0, 2.0, 46.0, 26.0) false",
            "box (52.0, 2.0, 46.0, 26.0) false",
            "box (2.0, 32.0, 46.0, 26.0) false",
            "box (52.0, 32.0, 46.0, 26.0) false",
        ]
    );
}

#[test]
fn a_hidden_bar_shows_only_the_handle() {
    let mut s = hidden_bar();
    s.atlas_texture = true;
    let shown: Vec<String> = draw_frame(&s, &Mono).iter().map(show).collect();
    assert_eq!(shown, vec!["clear", "handle (0.0, 0.0, 200.0, 40.0)"]);
}

#[test]
fn keys_are_drawn_where_they_are_touched() {
    let mut s = shown_bar();
    on_output(&mut s, 2);
    let outcome = on_configure(&mut s, 3, 200).unwrap();
    assert_eq!(outcome.alloc, Some(BufferSize { width: 400, height: 320 }));
    install_slots(&mut s, [14, 15]);
    let boxes: Vec<Rect<Px>> = draw_frame(&s, &Mono)
        .iter()
        .filter_map(|command| match command {
            DrawCommand::KeyBox { rect, .. } => Some(*rect),
            _ => None,
        })
        .collect();
    let (view, f) = view_and_factor(&s).unwrap();
    let keys = view.keys();
    assert_eq!(boxes.len(), keys.len());
    for (drawn, key) in boxes.iter().zip(&keys) {
        let touched = scale_rect(scale_rect(key.touch_area, f), Px(2.0));
        assert!(touched.x.0 <= drawn.x.0 && drawn.right().0 <= touched.right().0);
        assert!(touched.y.0 <= drawn.y.0 && drawn.bottom().0 <= touched.bottom().0);
    }
    // The view fills the buffer, and the Handle the band below it.
    assert_eq!(scale_rect(keys[1].rect, Px(4.0)).right(), Px(400.0));
    assert_eq!(show(draw_frame(&s, &Mono).last().unwrap()), "handle (0.0, 240.0, 400.0, 80.0)");
}

#[test]
fn a_height_that_is_rounded_down_lets_keys_reach_into_the_handle_by_half_at_most() {
    let mut s = shown_bar();
    if let Some(keymap) = s.keymap.as_mut() {
        for row in &mut keymap.views[0].rows {
            for key in &mut row.keys {
                // 98 wide in all: at a width of 200 the height is 122.4….
                key.rect.width = Px(49.0);
                key.rect.x = Px(if key.rect.x.0 > 0.0 { 49.0 } else { 0.0 });
                key.touch_area = key.rect;
            }
        }
    }
    on_configure(&mut s, 3, 200).unwrap();
    on_configure(&mut s, 4, 200).unwrap();
    assert_eq!(s.window.as_ref().unwrap().logical_height, 122 + 40);
    let handle = handle_rect(&s).unwrap();
    let (view, f) = view_and_factor(&s).unwrap();
    let keys = view.keys();
    for key in &keys {
        assert!(scale_rect(key.touch_area, f).bottom().0 <= handle.y.0 + 0.5);
    }
    assert!(scale_rect(keys[3].touch_area, f).bottom().0 > handle.y.0);
}

#[test]
fn modifiers_are_split_in_halves() {
    assert_eq!(split_modifier(0x0123_4567_89ab_cdef), (0x0123_4567, 0x89ab_cdef));
    assert_eq!(split_modifier(u64::MAX), (u32::MAX, u32::MAX));
    assert_eq!(split_modifier(0), (0, 0));
}
