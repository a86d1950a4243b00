//! What taps and clicks do: which key they find, in real numbers, and what its action does.

use vstd::prelude::*;

use crate::input::Effects;
use crate::layout::{ActionModel, KeyModel};
use crate::laws::{has_no_width, spans};
use crate::scalar::Rect;
use crate::sizing::SizeOverflow;
use crate::state::MechanixKeyboardState;

verus! {

/// Whether a rectangle contains a point.
pub open spec fn covers(r: Rect<real>, x: real, y: real) -> bool {
    r.x <= x && x < r.x + r.width && r.y <= y && y < r.y + r.height
}

/// A rectangle of layout units, where a layout unit has `f` units of the surface.
pub open spec fn on_surface(r: Rect<real>, f: real) -> Rect<real> {
    Rect { x: r.x * f, y: r.y * f, width: r.width * f, height: r.height * f }
}

/// The keys of the view that is current.
pub open spec fn current_keys(s: MechanixKeyboardState<real>) -> Seq<KeyModel<real>> {
    s.keymap->0.views@[s.current_view as int].model().all_keys()
}

/// Whether a test hits the Handle: the lowest 40 units of a surface that has a size.
pub open spec fn hits_handle(s: MechanixKeyboardState<real>, h: spec_fn(Rect<real>) -> bool) -> bool {
    let window = s.window->0;
    &&& window.logical_width != 0
    &&& window.logical_height != 0
    &&& h(
        Rect {
            x: 0real,
            y: (window.logical_height as real) - 40real,
            width: window.logical_width as real,
            height: 40real,
        },
    )
}

/// Whether a bar has its keys on the screen: it is shown, it has a width, and its view, `wide`
/// layout units wide, fills that width.
pub open spec fn has_keys(s: MechanixKeyboardState<real>, wide: real) -> bool {
    &&& s.window is Some
    &&& s.window->0.visible
    &&& s.window->0.logical_width != 0
    &&& s.keymap is Some
    &&& s.current_view < s.keymap->0.views@.len()
    &&& spans(current_keys(s), wide)
}

/// Whether key `i` is the first whose touch area a test hits, where the view, `wide` layout
/// units wide, is as wide as the surface.
pub open spec fn hits_first(
    s: MechanixKeyboardState<real>,
    h: spec_fn(Rect<real>) -> bool,
    wide: real,
    i: int,
) -> bool {
    let keys = current_keys(s);
    let f = (s.window->0.logical_width as real) / wide;
    &&& 0 <= i < keys.len()
    &&& h(on_surface(keys[i].touch_area, f))
    &&& forall|j: int| 0 <= j < i ==> !h(on_surface((#[trigger] keys[j]).touch_area, f))
}

/// Whether a test hits no key.
pub open spec fn hits_no_key(
    s: MechanixKeyboardState<real>,
    h: spec_fn(Rect<real>) -> bool,
    wide: real,
) -> bool {
    let keys = current_keys(s);
    let f = (s.window->0.logical_width as real) / wide;
    forall|j: int| 0 <= j < keys.len() ==> !h(on_surface((#[trigger] keys[j]).touch_area, f))
}

proof fn lemma_first_hit_is(
    s: MechanixKeyboardState<real>,
    h: spec_fn(Rect<real>) -> bool,
    wide: real,
    i: int,
)
    requires
        has_keys(s, wide),
    ensures
        hits_first(s, h, wide, i) ==> s.live_key(crate::flow::exact(), h) == Some(
            current_keys(s)[i],
        ),
        hits_no_key(s, h, wide) ==> s.live_key(crate::flow::exact(), h) is None,
{
    let m = crate::flow::exact();
    let keys = current_keys(s);
    let f = (s.window->0.logical_width as real) / wide;
    crate::laws::lemma_width_is_where_keys_end(
        s.keymap->0.views@[s.current_view as int].model(),
        wide,
    );
    assert(s.factor(m) == f);
    crate::input::lemma_first_hit(m, f, h, keys);
    assert forall|j: int| 0 <= j < keys.len() implies (#[trigger] keys[j]).touch_area.scaled(m, f)
        == on_surface(keys[j].touch_area, f) by {}
    if hits_no_key(s, h, wide) {
        assert forall|j: int| 0 <= j < keys.len() implies !h(
            (#[trigger] keys[j]).touch_area.scaled(m, f),
        ) by {
            assert(!h(on_surface(keys[j].touch_area, f)));
        }
    }
    if hits_first(s, h, wide, i) {
        assert(h(keys[i].touch_area.scaled(m, f)));
        let found = crate::input::first_hit(m, f, h, keys);
        assert(found is Some);
        let k = choose|k: int|
            0 <= k < keys.len() && #[trigger] keys[k] == found->0 && h(
                found->0.touch_area.scaled(m, f),
            ) && (forall|j: int| 0 <= j < k ==> !h((#[trigger] keys[j]).touch_area.scaled(m, f)));
        if k < i {
            assert(!h(on_surface(keys[k].touch_area, f)));
        }
        if i < k {
            assert(!h(keys[i].touch_area.scaled(m, f)));
        }
        assert(k == i);
    }
}

/// A tap beside the Handle does the action of the first key whose touch area it hits, where a
/// layout unit has as many units of the surface as make the view as wide as the surface.
pub proof fn lemma_tap_does_the_action_of_the_key_under_it(
    s: MechanixKeyboardState<real>,
    h: spec_fn(Rect<real>) -> bool,
    outcome: Result<Effects, SizeOverflow>,
    next: MechanixKeyboardState<real>,
    wide: real,
    i: int,
)
    requires
        s.tapped(crate::flow::exact(), h, outcome, next),
        has_keys(s, wide),
        !hits_handle(s, h),
        hits_first(s, h, wide, i),
    ensures
        outcome matches Ok(effects) && s.dispatched(current_keys(s)[i].action, effects, next),
{
    lemma_first_hit_is(s, h, wide, i);
}

/// A tap that hits neither the Handle nor a key does nothing, and neither does a tap beside
/// the Handle of a bar that is hidden or has no width.
pub proof fn lemma_tap_beside_everything_does_nothing(
    s: MechanixKeyboardState<real>,
    h: spec_fn(Rect<real>) -> bool,
    outcome: Result<Effects, SizeOverflow>,
    next: MechanixKeyboardState<real>,
    wide: real,
)
    requires
        s.tapped(crate::flow::exact(), h, outcome, next),
        s.window is Some ==> !hits_handle(s, h),
        s.window is None || !s.window->0.visible || s.window->0.logical_width == 0 || s.keymap is None
            || s.current_view >= s.keymap->0.views@.len() || has_no_width(current_keys(s)) || (
        has_keys(s, wide) && hits_no_key(s, h, wide)),
    ensures
        outcome matches Ok(effects) && effects.requests@.len() == 0 && effects.strokes@.len() == 0
            && !effects.repaint,
        next == (MechanixKeyboardState { last_hover: next.last_hover, ..s }),
{
    if has_keys(s, wide) && hits_no_key(s, h, wide) {
        lemma_first_hit_is(s, h, wide, 0);
    } else if s.keymap is Some && s.current_view < s.keymap->0.views@.len() && has_no_width(
        current_keys(s),
    ) {
        crate::laws::lemma_width_of_no_keys(s.keymap->0.views@[s.current_view as int].model());
    }
}

/// A tap on the Handle flips the bar, shown or hidden, whatever key it hits as well; it types
/// nothing, and changes nothing but the window.
pub proof fn lemma_tap_on_the_handle_flips_the_bar(
    s: MechanixKeyboardState<real>,
    h: spec_fn(Rect<real>) -> bool,
    outcome: Result<Effects, SizeOverflow>,
    next: MechanixKeyboardState<real>,
)
    requires
        s.tapped(crate::flow::exact(), h, outcome, next),
        s.window is Some,
        hits_handle(s, h),
    ensures
        next == (MechanixKeyboardState { window: next.window, ..s }),
        outcome matches Ok(effects) ==> s.flipped(
            crate::flow::exact(),
            Ok(effects.requests),
            next.window,
        ) && effects.strokes@.len() == 0 && !effects.repaint,
        outcome matches Err(error) ==> s.flipped(crate::flow::exact(), Err(error), next.window),
{
}

/// A point on the box of a key, as it is drawn, does the action of that key: where no two
/// touch areas overlap, and beside the Handle. The box of a key is its rectangle at the scale
/// that makes the view as wide as the buffer, drawn in by two layout units on every side; the
/// buffer has the output's scale of pixels to a unit of the surface.
pub proof fn lemma_point_on_a_drawn_key_does_its_action(
    s: MechanixKeyboardState<real>,
    h: spec_fn(Rect<real>) -> bool,
    outcome: Result<Effects, SizeOverflow>,
    next: MechanixKeyboardState<real>,
    wide: real,
    x: real,
    y: real,
    i: int,
)
    requires
        s.wf(),
        s.tapped(crate::flow::exact(), h, outcome, next),
        has_keys(s, wide),
        s.window->0.physical_width == s.window->0.logical_width * s.scale,
        forall|r: Rect<real>| #[trigger] h(r) == covers(r, x, y),
        !hits_handle(s, h),
        forall|a: int, b: int, u: real, v: real|
            0 <= a < b < current_keys(s).len() && #[trigger] covers(
                current_keys(s)[a].touch_area,
                u,
                v,
            ) ==> !#[trigger] covers(current_keys(s)[b].touch_area, u, v),
        0 <= i < current_keys(s).len(),
        current_keys(s)[i].touch_area == current_keys(s)[i].rect,
        ({
            let r = current_keys(s)[i].rect;
            let k = (s.window->0.physical_width as real) / wide;
            covers(
                Rect {
                    x: r.x * k + 2real * k,
                    y: r.y * k + 2real * k,
                    width: r.width * k - 4real * k,
                    height: r.height * k - 4real * k,
                },
                x * (s.scale as real),
                y * (s.scale as real),
            )
        }),
    ensures
        outcome matches Ok(effects) && s.dispatched(current_keys(s)[i].action, effects, next),
{
    let keys = current_keys(s);
    let r = keys[i].rect;
    let w = s.window->0.logical_width as real;
    let g = s.scale as real;
    let f = w / wide;
    let buffer_w = s.window->0.physical_width as real;
    let k = buffer_w / wide;
    assert(buffer_w == w * g) by {
        assert((s.window->0.logical_width * s.scale) as real == w * g) by (nonlinear_arith)
            requires
                w == s.window->0.logical_width as real,
                g == s.scale as real,
        ;
    }
    assert(k == f * g && f > 0real) by (nonlinear_arith)
        requires
            wide > 0real,
            w > 0real,
            f == w / wide,
            k == buffer_w / wide,
            buffer_w == w * g,
    ;
    lemma_drawn_is_touched(r.x, r.width, f, g, k, x);
    lemma_drawn_is_touched(r.y, r.height, f, g, k, y);
    assert(covers(on_surface(keys[i].touch_area, f), x, y));
    lemma_unscaled(keys[i].touch_area, f, x, y);
    assert forall|j: int| 0 <= j < i implies !h(on_surface((#[trigger] keys[j]).touch_area, f)) by {
        lemma_unscaled(keys[j].touch_area, f, x, y);
    }
    assert(hits_first(s, h, wide, i));
    lemma_first_hit_is(s, h, wide, i);
}

proof fn lemma_drawn_is_touched(from: real, size: real, f: real, g: real, k: real, p: real)
    requires
        g >= 1real,
        f > 0real,
        k == f * g,
        from * k + 2real * k <= p * g,
        p * g < from * k + 2real * k + (size * k - 4real * k),
    ensures
        from * f <= p,
        p < from * f + size * f,
{
    assert(k > 0real) by (nonlinear_arith)
        requires
            f > 0real,
            g >= 1real,
            k == f * g,
    ;
    assert(from * k == (from * f) * g && size * k == (size * f) * g) by (nonlinear_arith)
        requires
            k == f * g,
    ;
    let a = from * f;
    let b = size * f;
    assert(a <= p) by (nonlinear_arith)
        requires
            a * g <= p * g,
            g >= 1real,
    ;
    assert(p < a + b) by (nonlinear_arith)
        requires
            p * g < a * g + b * g,
            g >= 1real,
    ;
}

/// A point is on a rectangle at some scale where it is on the rectangle at scale one.
proof fn lemma_unscaled(r: Rect<real>, f: real, x: real, y: real)
    requires
        f > 0real,
    ensures
        covers(on_surface(r, f), x, y) == covers(r, x / f, y / f),
{
    lemma_unscaled_side(r.x, r.width, f, x);
    lemma_unscaled_side(r.y, r.height, f, y);
}

proof fn lemma_unscaled_side(from: real, size: real, f: real, p: real)
    requires
        f > 0real,
    ensures
        (from * f <= p) == (from <= p / f),
        (p < from * f + size * f) == (p / f < from + size),
{
    let q = p / f;
    assert(q * f == p) by (nonlinear_arith)
        requires
            f > 0real,
            q == p / f,
    ;
    assert((from * f <= q * f) == (from <= q)) by (nonlinear_arith)
        requires
            f > 0real,
    ;
    assert((q * f < from * f + size * f) == (q < from + size)) by (nonlinear_arith)
        requires
            f > 0real,
    ;
}

/// The pointer is over the first key that it hits, and that key's label is remembered: its
/// text, or `[icon]`. Over no key nothing is, nor while the bar is hidden.
pub proof fn lemma_hover_is_the_label_of_the_key_under_it(
    s: MechanixKeyboardState<real>,
    over: spec_fn(Rect<real>) -> bool,
    next: Option<String>,
    wide: real,
    i: int,
)
    requires
        s.hovered(crate::flow::exact(), over, false, next),
    ensures
        has_keys(s, wide) && hits_first(s, over, wide, i) ==> next is Some && (
        match current_keys(s)[i].face {
            crate::layout::FaceModel::Text(text) => (next->0)@ == text,
            crate::layout::FaceModel::Icon(_) => (next->0)@ == "[icon]"@,
        }),
        has_keys(s, wide) && hits_no_key(s, over, wide) ==> next is None,
        s.window is None || !s.window->0.visible ==> next is None,
{
    if has_keys(s, wide) {
        lemma_first_hit_is(s, over, wide, i);
        crate::laws::lemma_width_is_where_keys_end(
            s.keymap->0.views@[s.current_view as int].model(),
            wide,
        );
    }
}

/// Whether the current view becomes the first of the given name, or stays where there is none.
pub open spec fn goes_to<N>(
    s: MechanixKeyboardState<N>,
    after: MechanixKeyboardState<N>,
    name: Seq<char>,
) -> bool {
    let views = s.keymap->0.views@;
    &&& (exists|i: int| 0 <= i < views.len() && (#[trigger] views[i]).name@ == name)
        ==> after.current_view < views.len() && views[after.current_view as int].name@ == name && (
    forall|j: int| 0 <= j < after.current_view ==> (#[trigger] views[j]).name@ != name)
    &&& (forall|i: int| 0 <= i < views.len() ==> (#[trigger] views[i]).name@ != name)
        ==> after.current_view == s.current_view
}

proof fn lemma_switched_goes<N>(
    s: MechanixKeyboardState<N>,
    after: MechanixKeyboardState<N>,
    name: Seq<char>,
)
    requires
        s.keymap is Some,
        after.current_view as int == s.switched(name),
    ensures
        goes_to(s, after, name),
{
    let views = s.keymap->0.views@;
    let names = s.keymap->0.names();
    crate::keymap::lemma_position(names, name);
    assert forall|i: int| 0 <= i < views.len() implies names[i] == (#[trigger] views[i]).name@ by {}
    if exists|i: int| 0 <= i < views.len() && (#[trigger] views[i]).name@ == name {
        let i = choose|i: int| 0 <= i < views.len() && (#[trigger] views[i]).name@ == name;
        assert(names[i] == name);
    } else {
        assert forall|i: int| 0 <= i < names.len() implies names[i] != name by {
            assert(views[i].name@ != name);
        }
    }
}

/// A key that sets a view shows the view of that name, and does nothing where there is none. It
/// types nothing and leaves what is armed.
pub proof fn lemma_set_view_shows_the_view<N>(
    s: MechanixKeyboardState<N>,
    after: MechanixKeyboardState<N>,
    name: Seq<char>,
    effects: Effects,
)
    requires
        s.keymap is Some,
        s.dispatched(ActionModel::SetView(name), effects, after),
    ensures
        goes_to(s, after, name),
        effects.repaint == (after.current_view != s.current_view),
        effects.strokes@.len() == 0,
        after.virtual_keyboard_state.armed() == s.virtual_keyboard_state.armed(),
{
    lemma_switched_goes(s, after, name);
}

/// A key that toggles views goes back to `unlock` where `lock` is showing, and else to `lock`. It
/// types nothing and leaves what is armed.
pub proof fn lemma_toggle_goes_by_the_current_view<N>(
    s: MechanixKeyboardState<N>,
    after: MechanixKeyboardState<N>,
    lock: Seq<char>,
    unlock: Seq<char>,
    effects: Effects,
)
    requires
        s.keymap is Some,
        s.current_view < s.keymap->0.views@.len(),
        s.dispatched(ActionModel::ToggleView { lock, unlock }, effects, after),
    ensures
        s.keymap->0.views@[s.current_view as int].name@ == lock ==> goes_to(s, after, unlock),
        s.keymap->0.views@[s.current_view as int].name@ != lock ==> goes_to(s, after, lock),
        effects.repaint == (after.current_view != s.current_view),
        effects.strokes@.len() == 0,
        after.virtual_keyboard_state.armed() == s.virtual_keyboard_state.armed(),
{
    if s.keymap->0.views@[s.current_view as int].name@ == lock {
        lemma_switched_goes(s, after, unlock);
    } else {
        lemma_switched_goes(s, after, lock);
    }
}

/// A latch key arms its modifier where that is idle and disarms it where it is armed, and
/// repaints. It types nothing, and leaves the view and every other modifier.
pub proof fn lemma_latch_key_flips_its_modifier<N>(
    s: MechanixKeyboardState<N>,
    after: MechanixKeyboardState<N>,
    name: Seq<char>,
    other: Seq<char>,
    effects: Effects,
)
    requires
        s.dispatched(ActionModel::LatchModifier(name), effects, after),
    ensures
        s.virtual_keyboard_state.mod_masks@.contains_key(name)
            ==> after.virtual_keyboard_state.armed().contains(name)
            == !s.virtual_keyboard_state.armed().contains(name),
        !s.virtual_keyboard_state.mod_masks@.contains_key(name) || other != name
            ==> after.virtual_keyboard_state.armed().contains(other)
            == s.virtual_keyboard_state.armed().contains(other),
        effects.repaint,
        effects.strokes@.len() == 0,
        after.current_view == s.current_view,
{
}

/// A key with a text types it: where the keyboard is ready and its keymap has every character,
/// one keystroke for each, in order. What was armed is armed no longer, and its highlight is
/// repainted away; the view stays.
pub proof fn lemma_text_key_types_its_text<N>(
    s: MechanixKeyboardState<N>,
    after: MechanixKeyboardState<N>,
    text: Seq<char>,
    effects: Effects,
)
    requires
        s.wf(),
        s.dispatched(ActionModel::EmitText(text), effects, after),
        s.globals.virtual_keyboard,
        forall|i: int|
            0 <= i < text.len() ==> s.virtual_keyboard_state.keycodes@.contains_key(
                crate::keysyms::keysym_of_char(#[trigger] text[i]),
            ),
    ensures
        effects.strokes@.len() == text.len(),
        forall|i: int|
            0 <= i < text.len() ==> (#[trigger] effects.strokes@[i]).code
                == s.virtual_keyboard_state.keycodes@[crate::keysyms::keysym_of_char(
                text[i],
            )].code,
        after.current_view == s.current_view,
        text.len() > 0 ==> after.virtual_keyboard_state.armed() == Set::<Seq<char>>::empty(),
        effects.repaint == (text.len() > 0 && s.virtual_keyboard_state.latched@.len() > 0),
{
    crate::laws::typing::lemma_text_is_typed_character_by_character(s.virtual_keyboard_state, text);
}

/// A key with a text types what can be typed of it, in order, and leaves out the rest: nothing
/// before the keyboard is ready, and then what its keymap has.
pub proof fn lemma_text_key_types_what_it_can<N>(
    s: MechanixKeyboardState<N>,
    after: MechanixKeyboardState<N>,
    text: Seq<char>,
    effects: Effects,
)
    requires
        s.dispatched(ActionModel::EmitText(text), effects, after),
    ensures
        !s.globals.virtual_keyboard ==> effects.strokes@.len() == 0,
        s.globals.virtual_keyboard ==> ({
            let codes = s.virtual_keyboard_state.keycodes@;
            let typed = text.map_values(
                |c: char| crate::keysyms::keysym_of_char(c),
            ).filter(|k: u32| codes.contains_key(k));
            &&& effects.strokes@.len() == typed.len()
            &&& forall|n: int|
                0 <= n < typed.len() ==> (#[trigger] effects.strokes@[n]).code
                    == codes[typed[n]].code
        }),
        effects.strokes@.len() == 0 ==> after.virtual_keyboard_state.armed()
            == s.virtual_keyboard_state.armed() && !effects.repaint,
{
    let keyboard = s.virtual_keyboard_state;
    let keysyms = text.map_values(|c: char| crate::keysyms::keysym_of_char(c));
    assert(keysyms =~= crate::virtual_keyboard::keysyms_of(ActionModel::EmitText(text)));
    crate::laws::typing::lemma_nothing_is_typed_unready(keyboard, keysyms);
    crate::laws::typing::lemma_each_keysym_has_its_keystroke(keyboard, keysyms);
    let codes = keyboard.keycodes@;
    assert(keysyms.filter(|k: u32| codes.contains_key(k)) == keysyms.filter(
        |k: u32| keyboard.keycodes@.contains_key(k),
    ));
}

/// A key with a keysym types it: by the keystroke that the keymap has for it, where the
/// keyboard is ready and there is one. What was armed goes with that keystroke, and stays where
/// there is none.
pub proof fn lemma_keysym_key_types_its_keysym<N>(
    s: MechanixKeyboardState<N>,
    after: MechanixKeyboardState<N>,
    keysym: u32,
    effects: Effects,
)
    requires
        s.dispatched(ActionModel::EmitKeysym(keysym), effects, after),
    ensures
        after.current_view == s.current_view,
        s.globals.virtual_keyboard && s.virtual_keyboard_state.keycodes@.contains_key(keysym) ==> {
            &&& effects.strokes@.len() == 1
            &&& effects.strokes@[0].code == s.virtual_keyboard_state.keycodes@[keysym].code
            &&& after.virtual_keyboard_state.armed() == Set::<Seq<char>>::empty()
            &&& effects.repaint == (s.virtual_keyboard_state.latched@.len() > 0)
        },
        !s.globals.virtual_keyboard || !s.virtual_keyboard_state.keycodes@.contains_key(keysym) ==> {
            &&& effects.strokes@.len() == 0
            &&& after.virtual_keyboard_state.armed() == s.virtual_keyboard_state.armed()
            &&& !effects.repaint
        },
{
    crate::laws::typing::lemma_only_keysyms_and_texts_type(
        s.virtual_keyboard_state,
        ActionModel::EmitKeysym(keysym),
        s.globals.virtual_keyboard,
    );
}

} // verus!
