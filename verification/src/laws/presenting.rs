//! How frames, buffers and callbacks follow on one another, and how the keyboard comes up.

use vstd::prelude::*;
use vstd::view::View as _;

use crate::layout::{Key, Keymap, View};
use crate::render::DrawCommand;
use crate::state::{LayoutSource, MechanixKeyboardState};
use crate::virtual_keyboard::KeyTable;
use crate::window::CallbackOutcome;

verus! {

/// Frames go to the two buffers in turn, and a buffer that has been presented is not drawn into
/// until it has been released: with one frame presented the next goes to the other buffer, and
/// with two presented and none released the third waits.
pub proof fn lemma_buffers_take_turns<N>(
    s: MechanixKeyboardState<N>,
    one: MechanixKeyboardState<N>,
    two: MechanixKeyboardState<N>,
    first: Option<u64>,
    second: Option<u64>,
)
    requires
        s.wf(),
        s.render_step() is Draw,
        s.presented(first, one),
        one.presented(second, two),
    ensures
        one.window->0.back == 0 <==> s.window->0.back == 1,
        one.window->0.back < 2,
        two.window->0.back == s.window->0.back,
        two.render_step() is Defer,
        !one.window->0.pending_frame,
        ({
            let other = 1 - s.window->0.back;
            (s.window->0.slots->0)@[other].released <==> one.render_step() is Draw
        }),
{
}

/// A buffer comes back: once the buffer that was presented is released, and no other has been,
/// it can be drawn into again; its twin is as it was.
pub proof fn lemma_released_buffer_is_drawable_again<N>(
    s: MechanixKeyboardState<N>,
    one: MechanixKeyboardState<N>,
    after: MechanixKeyboardState<N>,
    callback: Option<u64>,
    id: u64,
    retry: bool,
)
    requires
        s.wf(),
        s.back_slot() is Some,
        s.presented(callback, one),
        one.handed_back(Some(id), retry, after),
        (s.window->0.slots->0)@[s.window->0.back as int].buffer_id == id,
        (s.window->0.slots->0)@[1 - s.window->0.back].buffer_id != id,
    ensures
        !retry,
        (after.window->0.slots->0)@[s.window->0.back as int].released,
        (after.window->0.slots->0)@[1 - s.window->0.back] == (s.window->0.slots->0)@[1
            - s.window->0.back],
        after.window->0.back == one.window->0.back,
{
}

/// A release asks for the frame that was put off, and for none where none was.
pub proof fn lemma_release_retries_what_was_put_off<N>(
    s: MechanixKeyboardState<N>,
    after: MechanixKeyboardState<N>,
    id: Option<u64>,
    retry: bool,
)
    requires
        s.handed_back(id, retry, after),
    ensures
        retry ==> id is Some && s.window is Some && s.window->0.pending_frame,
        id is Some && s.window is Some && s.window->0.pending_frame ==> retry,
        id is None ==> after == s,
        after.frame_callbacks == s.frame_callbacks,
        after.keymap == s.keymap,
{
}

/// The callback that a frame asked for repaints, once: the next callback of that id does not.
pub proof fn lemma_frame_callback_repaints_once<N>(
    s: MechanixKeyboardState<N>,
    one: MechanixKeyboardState<N>,
    two: MechanixKeyboardState<N>,
    three: MechanixKeyboardState<N>,
    id: u64,
    first: CallbackOutcome,
    second: CallbackOutcome,
)
    requires
        s.presented(Some(id), one),
        one.called_back(Some(id), first, two),
        two.called_back(Some(id), second, three),
    ensures
        first is Render,
        second is Nothing,
        two.window == one.window,
        three.window == one.window,
        three.frame_callbacks@ == s.frame_callbacks@.remove(id),
        forall|other: u64|
            other != id ==> three.frame_callbacks@.contains(other)
                == s.frame_callbacks@.contains(other),
{
    assert(three.frame_callbacks@ =~= s.frame_callbacks@.remove(id));
}

/// A callback that no frame asked for creates the surface, once, and as soon as the compositor
/// and the layer shell are bound.
pub proof fn lemma_roundtrip_creates_the_surface_once<N>(
    s: MechanixKeyboardState<N>,
    one: MechanixKeyboardState<N>,
    two: MechanixKeyboardState<N>,
    id: u64,
    again: u64,
    first: CallbackOutcome,
    second: CallbackOutcome,
)
    requires
        !s.frame_callbacks@.contains(id),
        !s.frame_callbacks@.contains(again),
        s.called_back(Some(id), first, one),
        one.called_back(Some(again), second, two),
    ensures
        first is Create <==> s.window is None && s.globals.compositor is Some
            && s.globals.layer_shell is Some,
        first is Create || first is Nothing,
        first is Create ==> one.window is Some && second is Nothing && two.window == one.window,
        one.frame_callbacks@ == s.frame_callbacks@,
{
}

/// The scale of the output is the last factor above zero that it reported.
pub proof fn lemma_scale_is_the_last_factor(scale: i32, factor: i32)
    ensures
        factor >= 1 ==> crate::window::scale_after(scale, factor) == factor,
        factor < 1 ==> crate::window::scale_after(scale, factor) == scale,
{
}

/// A keymap is loaded on the first view that is named `base`; on its first view, where none is.
pub proof fn lemma_keymap_starts_on_the_base_view<N>(
    s: MechanixKeyboardState<N>,
    after: MechanixKeyboardState<N>,
    keymap: Keymap<N>,
)
    requires
        s.loaded(keymap, after),
    ensures
        after.keymap == Some(keymap),
        (exists|i: int| 0 <= i < keymap.views@.len() && (#[trigger] keymap.views@[i]).name@
            == "base"@) ==> after.current_view < keymap.views@.len()
            && keymap.views@[after.current_view as int].name@ == "base"@,
        forall|j: int|
            0 <= j < after.current_view ==> (#[trigger] keymap.views@[j]).name@ != "base"@,
        (forall|i: int|
            0 <= i < keymap.views@.len() ==> (#[trigger] keymap.views@[i]).name@ != "base"@)
            ==> after.current_view == 0,
        after == (MechanixKeyboardState {
            keymap: after.keymap,
            current_view: after.current_view,
            ..s
        }),
{
    let names = keymap.names();
    let views = keymap.views@;
    crate::keymap::lemma_position(names, "base"@);
    assert forall|i: int| 0 <= i < views.len() implies names[i] == (#[trigger] views[i]).name@ by {}
    if exists|i: int| 0 <= i < views.len() && (#[trigger] views[i]).name@ == "base"@ {
        let i = choose|i: int| 0 <= i < views.len() && (#[trigger] views[i]).name@ == "base"@;
        assert(names[i] == "base"@);
    } else {
        assert forall|i: int| 0 <= i < names.len() implies names[i] != "base"@ by {
            assert(views[i].name@ != "base"@);
        }
    }
}

/// A layout file that the environment names is used whatever else there is; without one, a
/// local file; without either, the fallback.
pub proof fn lemma_named_layout_comes_first(named: Option<String>, local: bool)
    ensures
        named matches Some(path) ==> crate::state::source_of(named, local) == LayoutSource::Path(
            path,
        ),
        named is None && local ==> crate::state::source_of(named, local) is Local,
        named is None && !local ==> crate::state::source_of(named, local) is Fallback,
{
}

/// Installing the virtual keyboard makes it ready: it types every keysym that the keymap's keys
/// have, as they have it, and no other; and Control can be latched, and nothing else.
pub proof fn lemma_installed_keyboard_types_its_keymap<N>(
    s: MechanixKeyboardState<N>,
    after: MechanixKeyboardState<N>,
    table: KeyTable,
    keysym: u32,
    name: Seq<char>,
)
    requires
        s.installed(table, after),
        after.virtual_keyboard_state.latched@.len() == 0,
    ensures
        after.globals.virtual_keyboard,
        after.virtual_keyboard_state.stroke_for(true, keysym) == table.stroke_of(keysym),
        after.virtual_keyboard_state.mod_masks@.contains_key(name) <==> name == "Control"@,
        after.virtual_keyboard_state.mod_masks@["Control"@] == 1u32 << table.control_index,
        after.window == s.window,
        after.keymap == s.keymap,
        after.current_view == s.current_view,
{
    let keyboard = after.virtual_keyboard_state;
    keyboard.lemma_latch_is_one_shot(true, keysym);
    assert(keyboard.keycodes@.contains_key(keysym) <==> table.stroke_of(keysym) is Some);
}

/// Lists stand for what they hold, one for one and in order.
pub proof fn lemma_lists_stand_for_what_they_hold<N>(
    keys: Seq<&Key<N>>,
    views: Seq<View<N>>,
    commands: Seq<DrawCommand<N>>,
    texts: Seq<String>,
    i: int,
)
    ensures
        crate::layout::key_models(keys).len() == keys.len(),
        0 <= i < keys.len() ==> crate::layout::key_models(keys)[i] == keys[i].model(),
        crate::layout::view_names(views).len() == views.len(),
        0 <= i < views.len() ==> crate::layout::view_names(views)[i] == views[i].name@,
        crate::keymap::view_models(views).len() == views.len(),
        0 <= i < views.len() ==> crate::keymap::view_models(views)[i] == views[i].model(),
        crate::keymap::keys_by_view(views).len() == views.len(),
        0 <= i < views.len() ==> crate::keymap::keys_by_view(views)[i]
            == views[i].model().all_keys(),
        crate::render::draw_models(commands).len() == commands.len(),
        0 <= i < commands.len() ==> crate::render::draw_models(commands)[i]
            == commands[i].model(),
        crate::text::texts(texts).len() == texts.len(),
        0 <= i < texts.len() ==> crate::text::texts(texts)[i] == texts[i]@,
{
}

} // verus!
