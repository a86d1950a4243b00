//! What is bound and created, what is shown, and what the contracts quantify over.

use vstd::prelude::*;
use vstd::view::View as _;

use crate::input::Effects;
use crate::layout::{ActionModel, View};
use crate::render::{Metrics, Typeface};
use crate::scalar::{Arithmetic, Rect, Scalar};
use crate::state::MechanixKeyboardState;
use crate::window::{Devices, Global, GlobalKind, SurfaceRequest, WaylandGlobals};

verus! {

/// A global is bound by the name of its interface, and an interface of any other name is left.
pub proof fn lemma_globals_are_known_by_interface(interface: Seq<char>)
    ensures
        crate::window::kind_of(interface) == Some(GlobalKind::Compositor) <==> interface
            == "wl_compositor"@,
        crate::window::kind_of(interface) == Some(GlobalKind::LayerShell) <==> interface
            == "zwlr_layer_shell_v1"@,
        crate::window::kind_of(interface) == Some(GlobalKind::Output) <==> interface
            == "wl_output"@,
        crate::window::kind_of(interface) == Some(GlobalKind::Dmabuf) <==> interface
            == "zwp_linux_dmabuf_v1"@,
        crate::window::kind_of(interface) == Some(GlobalKind::Seat) <==> interface == "wl_seat"@,
        crate::window::kind_of(interface) == Some(GlobalKind::VirtualKeyboardManager)
            <==> interface == "zwp_virtual_keyboard_manager_v1"@,
{
    reveal_strlit("wl_compositor");
    reveal_strlit("zwlr_layer_shell_v1");
    reveal_strlit("wl_output");
    reveal_strlit("zwp_linux_dmabuf_v1");
    reveal_strlit("wl_seat");
    reveal_strlit("zwp_virtual_keyboard_manager_v1");
    assert("wl_compositor"@.len() == 13);
    assert("zwlr_layer_shell_v1"@.len() == 19);
    assert("wl_output"@.len() == 9);
    assert("zwp_linux_dmabuf_v1"@.len() == 19);
    assert("zwlr_layer_shell_v1"@[2] != "zwp_linux_dmabuf_v1"@[2]);
    assert("wl_seat"@.len() == 7);
    assert("zwp_virtual_keyboard_manager_v1"@.len() == 31);
}

/// Binding a global binds it and no other.
pub proof fn lemma_binding_binds_one(globals: WaylandGlobals, kind: GlobalKind, global: Global)
    ensures
        ({
            let after = globals.with(kind, global);
            &&& after.compositor == if kind is Compositor {
                Some(global)
            } else {
                globals.compositor
            }
            &&& after.layer_shell == if kind is LayerShell {
                Some(global)
            } else {
                globals.layer_shell
            }
            &&& after.output == if kind is Output {
                Some(global)
            } else {
                globals.output
            }
            &&& after.dmabuf == if kind is Dmabuf {
                Some(global)
            } else {
                globals.dmabuf
            }
            &&& after.seat == if kind is Seat {
                Some(global)
            } else {
                globals.seat
            }
            &&& after.virtual_keyboard_manager == if kind is VirtualKeyboardManager {
                Some(global)
            } else {
                globals.virtual_keyboard_manager
            }
            &&& after.pointer == globals.pointer && after.keyboard == globals.keyboard
                && after.touch == globals.touch && after.virtual_keyboard
                == globals.virtual_keyboard
        }),
{
}

/// A device is asked for exactly where the seat is bound and reports it and it has not been
/// asked for; and then it counts as bound.
pub proof fn lemma_reported_devices_are_asked_for(globals: WaylandGlobals, reported: Devices)
    ensures
        ({
            let asked = globals.missing(reported);
            let after = globals.with_devices(asked);
            &&& asked.keyboard <==> globals.seat is Some && reported.keyboard && !globals.keyboard
            &&& asked.pointer <==> globals.seat is Some && reported.pointer && !globals.pointer
            &&& asked.touch <==> globals.seat is Some && reported.touch && !globals.touch
            &&& globals.seat is Some ==> (reported.keyboard ==> after.keyboard) && (reported.pointer
                ==> after.pointer) && (reported.touch ==> after.touch)
            &&& after == (WaylandGlobals {
                keyboard: after.keyboard,
                pointer: after.pointer,
                touch: after.touch,
                ..globals
            })
            &&& (globals.keyboard ==> after.keyboard) && (after.keyboard ==> globals.keyboard
                || asked.keyboard)
            &&& (globals.pointer ==> after.pointer) && (after.pointer ==> globals.pointer
                || asked.pointer)
            &&& (globals.touch ==> after.touch) && (after.touch ==> globals.touch || asked.touch)
        }),
{
}

/// A new surface is a hidden bar: as tall as the Handle, with a zone of that height reserved, at
/// the bottom edge, without keyboard focus; and all that is committed last. Its window knows no
/// size and has no buffers.
pub proof fn lemma_new_surface_is_a_hidden_bar()
    ensures
        crate::window::new_surface_requests() == seq![
            SurfaceRequest::SetSize { width: 0, height: 40 },
            SurfaceRequest::AnchorToBottom,
            SurfaceRequest::SetExclusiveZone(40),
            SurfaceRequest::NoKeyboardInteractivity,
            SurfaceRequest::Commit,
        ],
        ({
            let window = crate::window::new_window();
            &&& !window.visible && !window.pending_frame && window.slots is None && window.back == 0
            &&& window.requested_height == 40
            &&& window.logical_width == 0 && window.logical_height == 0
            &&& window.physical_width == 0 && window.physical_height == 0
        }),
{
}

/// A surface can be created once, as soon as the compositor and the layer shell are bound.
pub proof fn lemma_surface_is_created_once<N>(s: MechanixKeyboardState<N>)
    ensures
        s.can_create_window() <==> s.window is None && s.globals.compositor is Some
            && s.globals.layer_shell is Some,
{
}

/// The view that is shown is the current one of the keymap, and none where there is no such.
pub proof fn lemma_shown_view_is_the_current_one<N>(s: MechanixKeyboardState<N>)
    ensures
        s.keymap matches Some(keymap) ==> (s.current_view < keymap.views@.len() ==> s.shown()
            == Some(&keymap.views@[s.current_view as int])),
        s.keymap matches Some(keymap) ==> (s.current_view >= keymap.views@.len() ==> s.shown()
            is None),
        s.keymap is None ==> s.shown() is None,
{
}

/// The name, the rows and the keys of a view are those that it holds, in their order.
pub proof fn lemma_view_shows_its_keys<N>(view: View<N>, i: int, j: int)
    requires
        0 <= i < view.rows@.len(),
        0 <= j < view.rows@[i].keys@.len(),
    ensures
        view.model().name == view.name@,
        view.model().rows.len() == view.rows@.len(),
        view.model().rows[i].len() == view.rows@[i].keys@.len(),
        view.model().rows[i][j] == view.rows@[i].keys@[j].model(),
        view.model().all_keys() == crate::layout::flat(view.model().rows),
{
}

/// What a key does changes the current view and the latches at most: not the window, the keymap,
/// what is bound, or what can be typed.
pub proof fn lemma_keys_change_nothing_else<N>(
    s: MechanixKeyboardState<N>,
    after: MechanixKeyboardState<N>,
    action: ActionModel,
    effects: Effects,
)
    requires
        s.dispatched(action, effects, after),
    ensures
        after.window == s.window,
        after.keymap == s.keymap,
        after.globals == s.globals,
        after.frame_callbacks == s.frame_callbacks,
        after.scale == s.scale,
        after.atlas_texture == s.atlas_texture,
        after.virtual_keyboard_state.keycodes == s.virtual_keyboard_state.keycodes,
        after.virtual_keyboard_state.mod_masks == s.virtual_keyboard_state.mod_masks,
        effects.requests@.len() == 0,
        s.keymap is None ==> after.current_view == s.current_view,
        action is Unhandled ==> effects.strokes@.len() == 0 && !effects.repaint
            && after.current_view == s.current_view && after.virtual_keyboard_state.armed()
            == s.virtual_keyboard_state.armed(),
{
}

/// A click on the Handle leaves what the pointer is said to be over.
pub proof fn lemma_click_on_the_handle_leaves_the_hover<N>(
    s: MechanixKeyboardState<N>,
    m: Arithmetic<N>,
    over: spec_fn(Rect<N>) -> bool,
    next: Option<String>,
)
    requires
        s.hovered(m, over, true, next),
    ensures
        next == s.last_hover,
{
}

/// What the contracts say of every arithmetic that computes as a number type does, they say of
/// each that agrees with its operations.
pub proof fn lemma_agreeing_arithmetic_computes<N: Scalar>(m: Arithmetic<N>)
    requires
        forall|n: u32, r: N| call_ensures(N::from_u32, (n,), r) ==> r == (m.from_u32)(n),
        forall|a: N, b: N, r: N| call_ensures(N::plus, (a, b), r) ==> r == (m.plus)(a, b),
        forall|a: N, b: N, r: N| call_ensures(N::minus, (a, b), r) ==> r == (m.minus)(a, b),
        forall|a: N, b: N, r: N| call_ensures(N::times, (a, b), r) ==> r == (m.times)(a, b),
        forall|a: N, b: N, r: N| call_ensures(N::over, (a, b), r) ==> r == (m.over)(a, b),
        forall|a: N, b: N, r: N| call_ensures(N::larger, (a, b), r) ==> r == (m.larger)(a, b),
        forall|a: N, r: bool| call_ensures(N::is_positive, (a,), r) ==> r == (m.is_positive)(a),
        forall|a: N, r: u32| call_ensures(N::rounded, (a,), r) ==> r == (m.rounded)(a),
    ensures
        crate::scalar::computes(m),
{
}

/// What they say of every measure that a font measures by, they say of each that agrees with it.
pub proof fn lemma_agreeing_metrics_measure<N, F: Typeface<N>>(font: F, t: Metrics<N>)
    requires
        forall|text: &str, w: N|
            call_ensures(F::measure_width, (&font, text), w) ==> w == (t.width)(text@),
        forall|height: N, y: N|
            call_ensures(F::baseline_offset, (&font, height), y) ==> y == (t.baseline)(height),
    ensures
        crate::render::measures(font, t),
{
}

/// What they say of every answer that a hit test decides by, they say of each that agrees with
/// it.
pub proof fn lemma_agreeing_answers_decide<N, F: Fn(Rect<N>) -> bool>(
    test: F,
    h: spec_fn(Rect<N>) -> bool,
)
    requires
        forall|r: Rect<N>, hit: bool| call_ensures(test, (r,), hit) ==> hit == h(r),
    ensures
        crate::input::decides(test, h),
{
}

} // verus!
