//! What holds of the keyboard as a whole.

use vstd::prelude::*;

pub mod binding;
pub mod drawing;
pub mod flowing;
pub mod presenting;
pub mod resolving;
pub mod settling;
pub mod tapping;
pub mod typing;

use crate::input::Effects;
use crate::layout::{ActionModel, KeyModel, ViewModel};
use crate::state::MechanixKeyboardState;
use crate::virtual_keyboard::{Keystroke, VirtualKeyboardState};

verus! {

/// Whether keys reach from 0 to `wide`: none ends further to the right, and one ends there.
pub open spec fn spans(keys: Seq<KeyModel<real>>, wide: real) -> bool {
    &&& wide > 0real
    &&& forall|i: int|
        0 <= i < keys.len() ==> (#[trigger] keys[i]).rect.x + keys[i].rect.width <= wide
    &&& exists|i: int|
        0 <= i < keys.len() && (#[trigger] keys[i]).rect.x + keys[i].rect.width == wide
}

/// Whether keys reach down to `tall`: none ends further down, and one ends there.
pub open spec fn descends(keys: Seq<KeyModel<real>>, tall: real) -> bool {
    &&& tall >= 0real
    &&& forall|i: int|
        0 <= i < keys.len() ==> (#[trigger] keys[i]).rect.y + keys[i].rect.height <= tall
    &&& exists|i: int|
        0 <= i < keys.len() && (#[trigger] keys[i]).rect.y + keys[i].rect.height == tall
}

/// A view is as wide as its keys reach to the right.
pub proof fn lemma_width_is_where_keys_end(view: ViewModel<real>, wide: real)
    requires
        spans(view.all_keys(), wide),
    ensures
        view.extent_x(crate::flow::exact()) == wide,
{
    let m = crate::flow::exact();
    let keys = view.all_keys();
    let edges = crate::layout::right_edges(m, keys);
    assert forall|i: int| 0 <= i < edges.len() implies #[trigger] edges[i] <= wide by {
        assert(keys[i].rect.x + keys[i].rect.width <= wide);
    }
    let i = choose|i: int|
        0 <= i < keys.len() && (#[trigger] keys[i]).rect.x + keys[i].rect.width == wide;
    assert(edges[i] == wide);
    crate::extent::lemma_largest_is(edges, wide);
}

/// Whether no key reaches to the right of 0.
pub open spec fn has_no_width(keys: Seq<KeyModel<real>>) -> bool {
    forall|i: int|
        0 <= i < keys.len() ==> (#[trigger] keys[i]).rect.x + keys[i].rect.width <= 0real
}

/// A view of which no key reaches to the right of 0 has no width.
pub proof fn lemma_width_of_no_keys(view: ViewModel<real>)
    requires
        has_no_width(view.all_keys()),
    ensures
        view.extent_x(crate::flow::exact()) == 0real,
{
    let keys = view.all_keys();
    let edges = crate::layout::right_edges(crate::flow::exact(), keys);
    assert forall|i: int| 0 <= i < edges.len() implies #[trigger] edges[i] <= 0real by {
        assert(keys[i].rect.x + keys[i].rect.width <= 0real);
    }
    crate::extent::lemma_largest_is(edges, 0real);
}

/// A view is as tall as its keys reach down.
pub proof fn lemma_height_is_where_keys_end(view: ViewModel<real>, tall: real)
    requires
        descends(view.all_keys(), tall),
    ensures
        view.extent_y(crate::flow::exact()) == tall,
{
    let m = crate::flow::exact();
    let keys = view.all_keys();
    let edges = crate::layout::bottom_edges(m, keys);
    assert forall|i: int| 0 <= i < edges.len() implies #[trigger] edges[i] <= tall by {
        assert(keys[i].rect.y + keys[i].rect.height <= tall);
    }
    let i = choose|i: int|
        0 <= i < keys.len() && (#[trigger] keys[i]).rect.y + keys[i].rect.height == tall;
    assert(edges[i] == tall);
    crate::extent::lemma_largest_is(edges, tall);
}

/// A view of which no key reaches below 0 has no height.
pub proof fn lemma_height_of_no_keys(view: ViewModel<real>)
    requires
        forall|i: int|
            0 <= i < view.all_keys().len() ==> (#[trigger] view.all_keys()[i]).rect.y
                + view.all_keys()[i].rect.height <= 0real,
    ensures
        view.extent_y(crate::flow::exact()) == 0real,
{
    let keys = view.all_keys();
    let edges = crate::layout::bottom_edges(crate::flow::exact(), keys);
    assert forall|i: int| 0 <= i < edges.len() implies #[trigger] edges[i] <= 0real by {
        assert(keys[i].rect.y + keys[i].rect.height <= 0real);
    }
    crate::extent::lemma_largest_is(edges, 0real);
}

/// Tapping a toggle key twice comes back: from the view `unlock` the first tap shows
/// `lock`, and the second shows `unlock` again.
pub proof fn lemma_toggling_twice_returns<N>(
    s: MechanixKeyboardState<N>,
    locked: MechanixKeyboardState<N>,
    after: MechanixKeyboardState<N>,
    lock: Seq<char>,
    unlock: Seq<char>,
    first: Effects,
    second: Effects,
)
    requires
        s.keymap is Some,
        lock != unlock,
        crate::keymap::position(s.keymap->0.names(), lock) is Some,
        crate::keymap::position(s.keymap->0.names(), unlock) == Some(s.current_view as int),
        s.dispatched(ActionModel::ToggleView { lock, unlock }, first, locked),
        locked.dispatched(ActionModel::ToggleView { lock, unlock }, second, after),
    ensures
        locked.shown() matches Some(view) && view.name@ == lock,
        after.shown() matches Some(view) && view.name@ == unlock,
        after.current_view == s.current_view,
        first.repaint && second.repaint,
{
    let names = s.keymap->0.names();
    crate::keymap::lemma_position(names, lock);
    crate::keymap::lemma_position(names, unlock);
    assert(names[s.current_view as int] == unlock);
    assert(names[locked.current_view as int] == lock);
}

/// A switch to a view stays: doing it again changes nothing and repaints nothing.
pub proof fn lemma_set_view_is_sticky<N>(
    s: MechanixKeyboardState<N>,
    there: MechanixKeyboardState<N>,
    after: MechanixKeyboardState<N>,
    name: Seq<char>,
    first: Effects,
    second: Effects,
)
    requires
        s.dispatched(ActionModel::SetView(name), first, there),
        there.dispatched(ActionModel::SetView(name), second, after),
    ensures
        after.current_view == there.current_view,
        !second.repaint,
{
}

/// An action that is not wired does nothing: no view changes, nothing is typed, and what
/// is armed stays armed.
pub proof fn lemma_unhandled_does_nothing<N>(
    s: MechanixKeyboardState<N>,
    after: MechanixKeyboardState<N>,
    name: Seq<char>,
    effects: Effects,
)
    requires
        s.dispatched(ActionModel::Unhandled(name), effects, after),
    ensures
        effects.is_nothing(),
        after.current_view == s.current_view,
        after.virtual_keyboard_state.armed() == s.virtual_keyboard_state.armed(),
{
}

/// What is armed serves one keystroke: once a tap has sent any, nothing is armed, and the
/// next keystroke of any keysym is the one of the keymap alone.
pub proof fn lemma_latch_serves_one_keystroke<N>(
    s: MechanixKeyboardState<N>,
    after: MechanixKeyboardState<N>,
    action: ActionModel,
    effects: Effects,
    keysym: u32,
)
    requires
        effects.strokes@.len() > 0,
        s.dispatched(action, effects, after),
    ensures
        after.virtual_keyboard_state.armed() == Set::<Seq<char>>::empty(),
        after.virtual_keyboard_state.stroke_for(true, keysym) matches Some(stroke) ==> stroke
            == s.virtual_keyboard_state.keycodes@[keysym],
{
    let keyboard = after.virtual_keyboard_state;
    if keyboard.latched_names().len() > 0 {
        assert(keyboard.armed().contains(keyboard.latched_names()[0]));
    }
    keyboard.lemma_latch_is_one_shot(true, keysym);
}

/// A latch stays armed until a real key fires: a tap that sends no keystroke and is on no
/// latch key leaves what is armed.
pub proof fn lemma_latch_waits_for_a_keystroke<N>(
    s: MechanixKeyboardState<N>,
    after: MechanixKeyboardState<N>,
    action: ActionModel,
    effects: Effects,
)
    requires
        effects.strokes@.len() == 0,
        !(action is LatchModifier),
        s.dispatched(action, effects, after),
    ensures
        after.virtual_keyboard_state.armed() == s.virtual_keyboard_state.armed(),
{
}

/// No tap on a key resizes the bar: a view switch keeps the window as it is.
pub proof fn lemma_keys_do_not_resize<N>(
    s: MechanixKeyboardState<N>,
    after: MechanixKeyboardState<N>,
    action: ActionModel,
    effects: Effects,
)
    requires
        s.dispatched(action, effects, after),
    ensures
        after.window == s.window,
        effects.requests@.len() == 0,
{
}

/// A keystroke holds its own modifiers and all that are armed: a latched Control over a
/// shifted key holds both.
pub proof fn lemma_keystroke_holds_all_modifiers(
    keyboard: VirtualKeyboardState,
    keysym: u32,
    i: int,
)
    requires
        keyboard.wf(),
        keyboard.keycodes@.contains_key(keysym),
        0 <= i < keyboard.latched_names().len(),
    ensures
        keyboard.stroke_for(true, keysym) matches Some(stroke)
            && crate::virtual_keyboard::within(keyboard.keycodes@[keysym].mods, stroke.mods)
            && crate::virtual_keyboard::within(
            keyboard.mod_masks@[keyboard.latched_names()[i]],
            stroke.mods,
        ),
{
    let own = keyboard.keycodes@[keysym].mods;
    let mask = keyboard.armed_mask();
    let one = keyboard.mod_masks@[keyboard.latched_names()[i]];
    crate::virtual_keyboard::lemma_mask_holds_each(
        keyboard.latched_names(),
        keyboard.mod_masks@,
        i,
    );
    assert(own | (own | mask) == own | mask) by (bit_vector);
    assert(one | (own | mask) == own | mask) by (bit_vector)
        requires
            one | mask == mask,
    ;
}

/// Before the virtual keyboard exists nothing is typed and nothing is armed.
pub proof fn lemma_nothing_is_typed_before_the_keyboard_exists<N>(
    s: MechanixKeyboardState<N>,
    ready: bool,
    keysyms: Seq<u32>,
)
    requires
        s.wf(),
        !s.globals.virtual_keyboard,
    ensures
        s.virtual_keyboard_state.strokes_for(ready, keysyms) == Seq::<Keystroke>::empty(),
        s.virtual_keyboard_state.armed() == Set::<Seq<char>>::empty(),
    decreases keysyms.len(),
{
    let keyboard = s.virtual_keyboard_state;
    if keysyms.len() > 0 {
        lemma_nothing_is_typed_before_the_keyboard_exists(s, ready, keysyms.drop_last());
    }
    if keyboard.latched_names().len() > 0 {
        assert(keyboard.mod_masks@.contains_key(keyboard.latched_names()[0]));
    }
    assert(keyboard.armed() =~= Set::empty());
}

/// The Handle is always drawn: every frame ends with it.
pub proof fn lemma_every_frame_ends_with_the_handle<N>(
    s: MechanixKeyboardState<N>,
    m: crate::scalar::Arithmetic<N>,
    t: crate::render::Metrics<N>,
)
    requires
        s.wf(),
        s.render_step() is Draw,
    ensures
        s.frame_drawing(m, t).len() > 0,
        s.handle_of(m) is Some,
        s.frame_drawing(m, t).last() == (crate::render::DrawModel::Handle {
            rect: s.handle_of(m)->0.scaled(
                m,
                (m.over)(
                    (m.from_u32)(s.window->0.physical_width),
                    (m.from_u32)(s.window->0.logical_width),
                ),
            ),
        }),
{
}

/// A frame is drawn only into a buffer that the compositor has handed back.
pub proof fn lemma_frames_go_to_released_buffers<N>(s: MechanixKeyboardState<N>)
    requires
        s.render_step() is Draw,
    ensures
        s.back_slot() matches Some(slot) && slot.released,
{
}

/// Keys are dead while the bar is hidden.
pub proof fn lemma_hidden_keys_are_dead<N>(
    s: MechanixKeyboardState<N>,
    m: crate::scalar::Arithmetic<N>,
    h: spec_fn(crate::scalar::Rect<N>) -> bool,
)
    requires
        !s.is_visible(),
    ensures
        s.live_key(m, h) is None,
{
}

/// In real numbers, the Handle sits below the keys. Once the bar has the height that it
/// asks for, every touch area ends where the Handle begins or above it, unless the height
/// of the keyboard was rounded down to a whole number; then it ends at most half a unit
/// below that.
pub proof fn lemma_handle_is_below_the_keys(s: MechanixKeyboardState<real>, i: int)
    requires
        ({
            let m = crate::flow::exact();
            let window = s.window->0;
            let view = s.shown()->0.model();
            &&& s.is_visible()
            &&& s.is_mapped(m)
            &&& window.logical_height != 0
            &&& window.logical_height == crate::sizing::bar_height(
                m,
                view,
                true,
                window.logical_width,
            )
            &&& 0 <= i < view.all_keys().len()
            &&& view.all_keys()[i].touch_area == view.all_keys()[i].rect
        }),
    ensures
        ({
            let m = crate::flow::exact();
            let window = s.window->0;
            let view = s.shown()->0.model();
            let area = view.all_keys()[i].touch_area.scaled(m, s.factor(m));
            let unrounded = view.extent_y(m) * (window.logical_width as real) / view.extent_x(m);
            s.handle_of(m) matches Some(handle) && area.bottom_edge(m) <= handle.y + 1real / 2real
                && (crate::sizing::keyboard_height(m, view, window.logical_width) as real
                >= unrounded ==> area.bottom_edge(m) <= handle.y)
        }),
{
    let m = crate::flow::exact();
    let view = s.shown()->0.model();
    let key: KeyModel<real> = view.all_keys()[i];
    let w = s.window->0.logical_width as real;
    let wide = view.extent_x(m);
    let tall = view.extent_y(m);
    let edges = crate::layout::bottom_edges(m, view.all_keys());
    crate::flow::lemma_largest_is_largest(edges, i);
    assert(edges[i] == key.rect.bottom_edge(m));
    let f = w / wide;
    let end = key.rect.y + key.rect.height;
    let unrounded = tall * w / wide;
    assert(s.factor(m) == f);
    assert(key.rect.y * f + key.rect.height * f == end * f) by (nonlinear_arith)
        requires
            end == key.rect.y + key.rect.height,
    ;
    assert(end * f <= unrounded) by (nonlinear_arith)
        requires
            end <= tall,
            w >= 0real,
            wide > 0real,
            f == w / wide,
            unrounded == tall * w / wide,
    ;
    let high = crate::sizing::keyboard_height(m, view, s.window->0.logical_width);
    assert(high == crate::flow::nearest(unrounded));
}

/// In real numbers, a view is drawn as wide as its buffer: scaled, it ends where the buffer
/// does.
pub proof fn lemma_view_fills_the_buffer(view: ViewModel<real>, buffer_w: real)
    requires
        view.extent_x(crate::flow::exact()) > 0real,
    ensures
        ({
            let m = crate::flow::exact();
            let k = (m.over)(buffer_w, view.extent_x(m));
            (m.times)(view.extent_x(m), k) == buffer_w
        }),
{
    let wide = view.extent_x(crate::flow::exact());
    assert(wide * (buffer_w / wide) == buffer_w) by (nonlinear_arith)
        requires
            wide > 0real,
    ;
}

/// In real numbers, a key is drawn where it is touched: its box, in buffer pixels, lies
/// within its touch area at the output's scale. The key must be large enough to have a box.
pub proof fn lemma_keys_are_drawn_where_they_are_touched(s: MechanixKeyboardState<real>, i: int)
    requires
        ({
            let m = crate::flow::exact();
            let window = s.window->0;
            let keys = s.shown()->0.model().all_keys();
            &&& s.wf()
            &&& s.is_mapped(m)
            &&& window.physical_width == window.logical_width * s.scale
            &&& 0 <= i < keys.len()
            &&& keys[i].touch_area == keys[i].rect
            &&& keys[i].rect.width >= 2real * (crate::render::KEY_INSET as real)
            &&& keys[i].rect.height >= 2real * (crate::render::KEY_INSET as real)
        }),
    ensures
        ({
            let m = crate::flow::exact();
            let view = s.shown()->0.model();
            let key = view.all_keys()[i];
            let k = (m.over)((m.from_u32)(s.window->0.physical_width), view.extent_x(m));
            let drawn = crate::render::key_box(m, key.rect, k);
            let touched = key.touch_area.scaled(m, s.factor(m)).scaled(m, s.scale as real);
            &&& touched.x <= drawn.x
            &&& drawn.right_edge(m) <= touched.right_edge(m)
            &&& touched.y <= drawn.y
            &&& drawn.bottom_edge(m) <= touched.bottom_edge(m)
        }),
{
    let m = crate::flow::exact();
    let view = s.shown()->0.model();
    let wide = view.extent_x(m);
    let w = s.window->0.logical_width as real;
    let g = s.scale as real;
    let f = s.factor(m);
    let buffer_w = s.window->0.physical_width as real;
    let k = buffer_w / wide;
    let r = view.all_keys()[i].rect;
    assert(buffer_w == w * g) by {
        assert((s.window->0.logical_width * s.scale) as real == w * g) by (nonlinear_arith)
            requires
                w == s.window->0.logical_width as real,
                g == s.scale as real,
        ;
    }
    assert(k == f * g && k >= 0real) by (nonlinear_arith)
        requires
            wide > 0real,
            w >= 0real,
            g >= 0real,
            f == w / wide,
            k == buffer_w / wide,
            buffer_w == w * g,
    ;
    lemma_scaling_twice(r.x, f, g, k);
    lemma_scaling_twice(r.y, f, g, k);
    lemma_scaling_twice(r.width, f, g, k);
    lemma_scaling_twice(r.height, f, g, k);
    lemma_has_room(r.width, k);
    lemma_has_room(r.height, k);
}

proof fn lemma_scaling_twice(a: real, f: real, g: real, k: real)
    requires
        k == f * g,
    ensures
        a * f * g == a * k,
{
    assert(a * f * g == a * (f * g)) by (nonlinear_arith);
}

proof fn lemma_has_room(size: real, k: real)
    requires
        size >= 4real,
        k >= 0real,
    ensures
        size * k >= 2real * (2real * k),
{
    assert(size * k >= 2real * (2real * k)) by (nonlinear_arith)
        requires
            size >= 4real,
            k >= 0real,
    ;
}

} // verus!
