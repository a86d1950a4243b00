//! What taps, clicks and hovering do.

use vstd::prelude::*;
use vstd::view::View as _;

use crate::layout::{ActionModel, Key, KeyAction, KeyModel, View};
use crate::scalar::{scale_rect, Arithmetic, Rect, Scalar};
use crate::sizing::{handle_rect, toggle_visibility, view_and_factor, SizeOverflow};
use crate::state::MechanixKeyboardState;
use crate::text::same_text;
use crate::virtual_keyboard::{emit_action, toggle_latch, Keystroke};
use crate::window::SurfaceRequest;

verus! {

/// What input leads to: requests for the surface, keystrokes to send, and whether to
/// repaint afterwards.
pub struct Effects {
    pub requests: Vec<SurfaceRequest>,
    pub strokes: Vec<Keystroke>,
    pub repaint: bool,
}

impl Effects {
    /// Whether nothing is to be done.
    pub open spec fn is_nothing(&self) -> bool {
        self.requests@.len() == 0 && self.strokes@.len() == 0 && !self.repaint
    }

    fn nothing() -> (effects: Self)
        ensures
            effects.is_nothing(),
    {
        Effects { requests: Vec::new(), strokes: Vec::new(), repaint: false }
    }
}

impl<N> MechanixKeyboardState<N> {
    /// The view that an action switches to. A toggle goes to `unlock` where the view
    /// `lock` is showing, and to `lock` otherwise.
    pub open spec fn target_view(&self, action: ActionModel) -> Option<Seq<char>> {
        match action {
            ActionModel::SetView(name) => Some(name),
            ActionModel::ToggleView { lock, unlock } => if self.shown() matches Some(view)
                && view.name@ == lock {
                Some(unlock)
            } else {
                Some(lock)
            },
            _ => None,
        }
    }

    /// The index of the view that is current after a switch to `name`: an unknown name
    /// is ignored.
    pub open spec fn switched(&self, name: Seq<char>) -> int {
        match self.keymap {
            Some(keymap) => match crate::keymap::position(keymap.names(), name) {
                Some(i) => i,
                None => self.current_view as int,
            },
            None => self.current_view as int,
        }
    }

    /// What the action of a tapped key does, apart from hovering.
    pub open spec fn dispatched(
        &self,
        action: ActionModel,
        effects: Effects,
        next: MechanixKeyboardState<N>,
    ) -> bool {
        let keyboard = self.virtual_keyboard_state;
        let ready = self.globals.virtual_keyboard;
        // What no action of a key touches.
        &&& next == (MechanixKeyboardState {
            current_view: next.current_view,
            virtual_keyboard_state: next.virtual_keyboard_state,
            last_hover: next.last_hover,
            ..*self
        })
        &&& next.virtual_keyboard_state.keycodes == keyboard.keycodes
        &&& next.virtual_keyboard_state.mod_masks == keyboard.mod_masks
        &&& effects.requests@.len() == 0
        // Which view is current.
        &&& next.current_view as int == (match self.target_view(action) {
            Some(name) => self.switched(name),
            None => self.current_view as int,
        })
        // What is armed, and what is typed.
        &&& next.virtual_keyboard_state.armed() == (match action {
            ActionModel::LatchModifier(name) => crate::virtual_keyboard::toggled(
                keyboard.armed(),
                keyboard.mod_masks@,
                name,
            ),
            _ => if effects.strokes@.len() > 0 {
                Set::<Seq<char>>::empty()
            } else {
                keyboard.armed()
            },
        })
        &&& effects.strokes@ == keyboard.strokes_for(
            ready,
            crate::virtual_keyboard::keysyms_of(action),
        )
        // Repaint when the view changed, when a latch was tapped, or when one was consumed.
        &&& effects.repaint == (next.current_view != self.current_view || action is LatchModifier
            || (effects.strokes@.len() > 0 && keyboard.latched@.len() > 0))
    }
}

/// Switch the Current view to the named one; says whether to repaint. A no-op (no
/// repaint) if the name is unknown or already current.
pub fn switch_view<N>(s: &mut MechanixKeyboardState<N>, name: &str) -> (repaint: bool)
    requires
        old(s).wf(),
    ensures
        final(s).wf(),
        final(s).current_view as int == old(s).switched(name@),
        repaint == (final(s).current_view != old(s).current_view),
        *final(s) == (MechanixKeyboardState { current_view: final(s).current_view, ..*old(s) }),
{
    let found: Option<usize> = match &s.keymap {
        Some(keymap) => keymap.index_of(name),
        None => None,
    };
    match found {
        Some(index) => {
            if index == s.current_view {
                return false;
            }
            s.current_view = index;
            true
        },
        None => false,
    }
}

/// Route a tapped key's action. A view switch changes the Current view; a modifier latch
/// arms/disarms; every other action is a keystroke or nothing.
pub fn dispatch_action<N>(s: &mut MechanixKeyboardState<N>, action: &KeyAction) -> (effects:
    Effects)
    requires
        old(s).wf(),
    ensures
        final(s).wf(),
        old(s).dispatched(action.model(), effects, *final(s)),
        final(s).last_hover == old(s).last_hover,
{
    let mut effects = Effects::nothing();
    match action {
        KeyAction::SetView(name) => {
            effects.repaint = switch_view(s, name.as_str());
            assert(effects.strokes@ =~= Seq::empty());
        },
        KeyAction::ToggleView { lock, unlock } => {
            // Toggle by current view: if the lock view is already showing, go back to
            // `unlock`; otherwise switch to `lock`.
            let locked: bool = match s.current_view() {
                Some(view) => same_text(view.name.as_str(), lock.as_str()),
                None => false,
            };
            effects.repaint = if locked {
                switch_view(s, unlock.as_str())
            } else {
                switch_view(s, lock.as_str())
            };
            assert(effects.strokes@ =~= Seq::empty());
        },
        KeyAction::LatchModifier(name) => {
            // Arm/disarm the modifier and repaint so its key shows the change.
            toggle_latch(s, name.as_str());
            effects.repaint = true;
            assert(effects.strokes@ =~= Seq::empty());
        },
        _ => {
            // Emit; if a keystroke consumed a latch that was armed, repaint to drop the
            // highlight. Compare the armed count across the emit.
            let armed_before: usize = s.virtual_keyboard_state.latched.len();
            effects.strokes = emit_action(s, action);
            effects.repaint = s.virtual_keyboard_state.latched.len() != armed_before;
        },
    }
    effects
}

/// Whether a hit test answers as `h` says, whenever it answers.
///
/// Contracts speak of every `h` that decides as the test does. There is one exactly when
/// the answers of the test depend on the rectangle alone.
pub open spec fn decides<N, F: Fn(Rect<N>) -> bool>(test: F, h: spec_fn(Rect<N>) -> bool) -> bool {
    forall|r: Rect<N>, hit: bool| call_ensures(test, (r,), hit) ==> hit == h(r)
}

/// Whether a hit test can be asked about every rectangle.
pub open spec fn is_total<N, F: Fn(Rect<N>) -> bool>(test: F) -> bool {
    forall|r: Rect<N>| #[trigger] call_requires(test, (r,))
}

/// The first key whose touch area, scaled by `f`, is hit.
pub open spec fn first_hit<N>(
    m: Arithmetic<N>,
    f: N,
    h: spec_fn(Rect<N>) -> bool,
    keys: Seq<KeyModel<N>>,
) -> Option<KeyModel<N>>
    decreases keys.len(),
{
    if keys.len() == 0 {
        None
    } else {
        match first_hit(m, f, h, keys.drop_last()) {
            Some(key) => Some(key),
            None => if h(keys.last().touch_area.scaled(m, f)) {
                Some(keys.last())
            } else {
                None
            },
        }
    }
}

/// The key that is hit is a key of the list, its touch area is hit, and that of no key
/// before it is; there is none exactly when no touch area is hit.
pub proof fn lemma_first_hit<N>(
    m: Arithmetic<N>,
    f: N,
    h: spec_fn(Rect<N>) -> bool,
    keys: Seq<KeyModel<N>>,
)
    ensures
        first_hit(m, f, h, keys) matches Some(key) ==> exists|i: int|
            0 <= i < keys.len() && #[trigger] keys[i] == key && h(key.touch_area.scaled(m, f)) && (
            forall|j: int| 0 <= j < i ==> !h((#[trigger] keys[j]).touch_area.scaled(m, f))),
        first_hit(m, f, h, keys) is None <==> forall|j: int|
            0 <= j < keys.len() ==> !h((#[trigger] keys[j]).touch_area.scaled(m, f)),
    decreases keys.len(),
{
    if keys.len() > 0 {
        let front = keys.drop_last();
        lemma_first_hit(m, f, h, front);
        match first_hit(m, f, h, front) {
            Some(key) => {
                let i = choose|i: int|
                    0 <= i < front.len() && #[trigger] front[i] == key && h(
                        key.touch_area.scaled(m, f),
                    ) && (forall|j: int|
                        0 <= j < i ==> !h((#[trigger] front[j]).touch_area.scaled(m, f)));
                assert(keys[i] == key);
                assert forall|j: int| 0 <= j < i implies !h(
                    (#[trigger] keys[j]).touch_area.scaled(m, f),
                ) by {
                    assert(front[j] == keys[j]);
                }
            },
            None => {
                assert forall|j: int| 0 <= j < front.len() implies !h(
                    (#[trigger] keys[j]).touch_area.scaled(m, f),
                ) by {
                    assert(front[j] == keys[j]);
                }
                assert(keys[keys.len() - 1] == keys.last());
            },
        }
    }
}

/// The first key whose (scaled) touch area is hit, else `None`.
pub fn hit_key<'a, N: Scalar, F: Fn(Rect<N>) -> bool>(
    view: &'a View<N>,
    f: N,
    test: &F,
) -> (found: Option<&'a Key<N>>)
    requires
        is_total(*test),
    ensures
        forall|m: Arithmetic<N>, h: spec_fn(Rect<N>) -> bool| #[trigger]
            crate::scalar::computes(m) && #[trigger] decides(*test, h) ==> match first_hit(
                m,
                f,
                h,
                view.model().all_keys(),
            ) {
                Some(key) => found matches Some(k) && k.model() == key,
                None => found is None,
            },
{
    let keys = view.keys();
    let ghost all = view.model().all_keys();
    let mut i: usize = 0;
    while i < keys.len()
        invariant
            is_total(*test),
            i <= keys.len(),
            all == view.model().all_keys(),
            crate::layout::key_models(keys@) == all,
            forall|m: Arithmetic<N>, h: spec_fn(Rect<N>) -> bool| #[trigger]
                crate::scalar::computes(m) && #[trigger] decides(*test, h) ==> first_hit(
                    m,
                    f,
                    h,
                    all.take(i as int),
                ) is None,
        decreases keys.len() - i,
    {
        let key = keys[i];
        let area = scale_rect(key.touch_area, f);
        let hit: bool = test(area);
        proof {
            assert(all[i as int] == key.model());
            assert(all.take(i + 1).drop_last() =~= all.take(i as int));
            assert forall|m: Arithmetic<N>, h: spec_fn(Rect<N>) -> bool| #[trigger]
                crate::scalar::computes(m) && #[trigger] decides(*test, h) implies first_hit(
                m,
                f,
                h,
                all.take(i + 1),
            ) == (if hit {
                Some(key.model())
            } else {
                None
            }) by {}
            if hit {
                assert forall|m: Arithmetic<N>, h: spec_fn(Rect<N>) -> bool| #[trigger]
                    crate::scalar::computes(m) && #[trigger] decides(*test, h) implies first_hit(
                    m,
                    f,
                    h,
                    all,
                ) == Some(key.model()) by {
                    lemma_first_hit_lasts(m, f, h, all, i + 1);
                }
            }
        }
        if hit {
            return Some(key);
        }
        i += 1;
    }
    assert(all.take(i as int) =~= all);
    None
}

proof fn lemma_first_hit_lasts<N>(
    m: Arithmetic<N>,
    f: N,
    h: spec_fn(Rect<N>) -> bool,
    keys: Seq<KeyModel<N>>,
    n: int,
)
    requires
        0 <= n <= keys.len(),
        first_hit(m, f, h, keys.take(n)) is Some,
    ensures
        first_hit(m, f, h, keys) == first_hit(m, f, h, keys.take(n)),
    decreases keys.len(),
{
    if n < keys.len() {
        let front = keys.drop_last();
        assert(front.take(n) =~= keys.take(n));
        lemma_first_hit_lasts(m, f, h, front, n);
    } else {
        assert(keys.take(n) =~= keys);
    }
}

/// Label of the first key whose (scaled) touch area is hit, else `None`.
pub fn key_at<N: Scalar, F: Fn(Rect<N>) -> bool>(view: &View<N>, f: N, test: &F) -> (label: Option<
    String,
>)
    requires
        is_total(*test),
    ensures
        forall|m: Arithmetic<N>, h: spec_fn(Rect<N>) -> bool| #[trigger]
            crate::scalar::computes(m) && #[trigger] decides(*test, h) ==> match first_hit(
                m,
                f,
                h,
                view.model().all_keys(),
            ) {
                Some(key) => label matches Some(l) && l@ == key.label(),
                None => label is None,
            },
{
    match hit_key(view, f, test) {
        Some(key) => Some(key.display_label().to_owned()),
        None => None,
    }
}

/// Action of the first key whose (scaled) touch area is hit, cloned.
pub fn action_at<N: Scalar, F: Fn(Rect<N>) -> bool>(
    view: &View<N>,
    f: N,
    test: &F,
) -> (action: Option<KeyAction>)
    requires
        is_total(*test),
    ensures
        forall|m: Arithmetic<N>, h: spec_fn(Rect<N>) -> bool| #[trigger]
            crate::scalar::computes(m) && #[trigger] decides(*test, h) ==> match first_hit(
                m,
                f,
                h,
                view.model().all_keys(),
            ) {
                Some(key) => action matches Some(a) && a.model() == key.action,
                None => action is None,
            },
{
    match hit_key(view, f, test) {
        Some(key) => Some(key.action.clone()),
        None => None,
    }
}

impl<N> MechanixKeyboardState<N> {
    /// Whether the keyboard is shown: keys are only live while it is.
    pub open spec fn is_visible(&self) -> bool {
        self.window matches Some(window) && window.visible
    }

    /// Whether the Handle is hit.
    pub open spec fn handle_hit(&self, m: Arithmetic<N>, h: spec_fn(Rect<N>) -> bool) -> bool {
        self.handle_of(m) matches Some(rect) && h(rect)
    }

    /// The key that is hit. Keys are live only while the keyboard is shown and mapped.
    pub open spec fn live_key(
        &self,
        m: Arithmetic<N>,
        h: spec_fn(Rect<N>) -> bool,
    ) -> Option<KeyModel<N>> {
        if self.is_visible() && self.is_mapped(m) {
            first_hit(m, self.factor(m), h, self.shown()->0.model().all_keys())
        } else {
            None
        }
    }

    /// What hitting something does, apart from hovering: the Handle flips the visibility
    /// of the bar, in either state and before any key; a live key does its action.
    pub open spec fn tapped(
        &self,
        m: Arithmetic<N>,
        h: spec_fn(Rect<N>) -> bool,
        outcome: Result<Effects, SizeOverflow>,
        next: MechanixKeyboardState<N>,
    ) -> bool {
        if self.handle_hit(m, h) {
            &&& next == (MechanixKeyboardState { window: next.window, ..*self })
            &&& match outcome {
                Ok(effects) => self.flipped(m, Ok(effects.requests), next.window)
                    && effects.strokes@.len() == 0 && !effects.repaint,
                Err(e) => self.flipped(m, Err(e), next.window),
            }
        } else {
            match self.live_key(m, h) {
                Some(key) => outcome matches Ok(effects) && self.dispatched(
                    key.action,
                    effects,
                    next,
                ),
                None => {
                    &&& outcome matches Ok(effects) && effects.is_nothing()
                    &&& next == (MechanixKeyboardState { last_hover: next.last_hover, ..*self })
                },
            }
        }
    }

    /// The label of what the pointer is over, once it has moved or clicked: a click on the
    /// Handle leaves it; a hidden keyboard has none; a shown one has that of its live key,
    /// and keeps what it had while it is not mapped.
    pub open spec fn hovered(
        &self,
        m: Arithmetic<N>,
        over: spec_fn(Rect<N>) -> bool,
        on_handle: bool,
        next: Option<String>,
    ) -> bool {
        if on_handle || (self.is_visible() && !self.is_mapped(m)) {
            next == self.last_hover
        } else {
            match self.live_key(m, over) {
                Some(key) => next matches Some(label) && label@ == key.label(),
                None => next is None,
            }
        }
    }
}

fn same_label(a: &Option<String>, b: &Option<String>) -> (same: bool)
    ensures
        same <==> match (*a, *b) {
            (Some(x), Some(y)) => x@ == y@,
            (None, None) => true,
            _ => false,
        },
{
    match (a, b) {
        (Some(x), Some(y)) => same_text(x.as_str(), y.as_str()),
        (None, None) => true,
        _ => false,
    }
}

/// A finger was lifted: `tapped` says which rectangles it tapped. A tap on the Handle
/// toggles Bar visibility, in either state; it is checked first. Keys are only live
/// while shown.
pub fn on_touch<N: Scalar, F: Fn(Rect<N>) -> bool>(
    s: &mut MechanixKeyboardState<N>,
    tapped: &F,
) -> (outcome: Result<Effects, SizeOverflow>)
    requires
        old(s).wf(),
        is_total(*tapped),
    ensures
        final(s).wf(),
        *final(s) == (MechanixKeyboardState {
            window: final(s).window,
            current_view: final(s).current_view,
            virtual_keyboard_state: final(s).virtual_keyboard_state,
            last_hover: final(s).last_hover,
            ..*old(s)
        }),
        final(s).last_hover == old(s).last_hover,
        forall|m: Arithmetic<N>, h: spec_fn(Rect<N>) -> bool| #[trigger]
            crate::scalar::computes(m) && #[trigger] decides(*tapped, h) ==> old(s).tapped(
                m,
                h,
                outcome,
                *final(s),
            ),
{
    if let Some(hr) = handle_rect(s) {
        let on_handle: bool = tapped(hr);
        if on_handle {
            return match toggle_visibility(s) {
                Ok(requests) => Ok(Effects { requests, strokes: Vec::new(), repaint: false }),
                Err(e) => Err(e),
            };
        }
    }
    let visible: bool = match &s.window {
        Some(window) => window.visible,
        None => false,
    };
    if !visible {
        return Ok(Effects::nothing());
    }
    let action: Option<KeyAction> = match view_and_factor(s) {
        Some((view, f)) => action_at(view, f, tapped),
        None => None,
    };
    match action {
        Some(action) => Ok(dispatch_action(s, &action)),
        None => Ok(Effects::nothing()),
    }
}

/// The pointer moved or clicked: `over` says which rectangles it is over, and `pressed`,
/// where the left button went down just now, over which it went down. A click on the
/// Handle toggles Bar visibility, in either state. Keys are only live while shown; when
/// hidden, any stale hover is cleared.
pub fn on_pointer<N: Scalar, F: Fn(Rect<N>) -> bool, P: Fn(Rect<N>) -> bool>(
    s: &mut MechanixKeyboardState<N>,
    over: &F,
    pressed: Option<&P>,
) -> (outcome: Result<Effects, SizeOverflow>)
    requires
        old(s).wf(),
        is_total(*over),
        pressed matches Some(test) ==> is_total(*test),
    ensures
        final(s).wf(),
        *final(s) == (MechanixKeyboardState {
            window: final(s).window,
            current_view: final(s).current_view,
            virtual_keyboard_state: final(s).virtual_keyboard_state,
            last_hover: final(s).last_hover,
            ..*old(s)
        }),
        pressed matches Some(test) ==> forall|
            m: Arithmetic<N>,
            h: spec_fn(Rect<N>) -> bool,
        | #[trigger]
            crate::scalar::computes(m) && #[trigger] decides(*test, h) ==> old(s).tapped(
                m,
                h,
                outcome,
                *final(s),
            ),
        pressed is None ==> outcome is Ok && outcome->Ok_0.is_nothing() && *final(s) == (
        MechanixKeyboardState { last_hover: final(s).last_hover, ..*old(s) }),
        pressed is None ==> forall|m: Arithmetic<N>, o: spec_fn(Rect<N>) -> bool| #[trigger]
            crate::scalar::computes(m) && #[trigger] decides(*over, o) ==> old(s).hovered(
                m,
                o,
                false,
                final(s).last_hover,
            ),
        pressed matches Some(test) ==> forall|
            m: Arithmetic<N>,
            h: spec_fn(Rect<N>) -> bool,
            o: spec_fn(Rect<N>) -> bool,
        | #[trigger]
            crate::scalar::computes(m) && #[trigger] decides(*test, h) && #[trigger] decides(
                *over,
                o,
            ) ==> old(s).hovered(m, o, old(s).handle_hit(m, h), final(s).last_hover),
{
    if let Some(hr) = handle_rect(s) {
        let on_handle: bool = match pressed {
            Some(test) => test(hr),
            None => false,
        };
        if on_handle {
            return match toggle_visibility(s) {
                Ok(requests) => Ok(Effects { requests, strokes: Vec::new(), repaint: false }),
                Err(e) => Err(e),
            };
        }
    }
    let visible: bool = match &s.window {
        Some(window) => window.visible,
        None => false,
    };
    if !visible {
        s.last_hover = None;
        return Ok(Effects::nothing());
    }
    // Resolve the hover label and the clicked key's action before acting on them.
    let (hover, clicked): (Option<String>, Option<KeyAction>) = match view_and_factor(s) {
        Some((view, f)) => (
            key_at(view, f, over),
            match pressed {
                Some(test) => action_at(view, f, test),
                None => None,
            },
        ),
        None => return Ok(Effects::nothing()),
    };
    // Click: type the key the left button went down on this frame.
    let effects = match clicked {
        Some(action) => dispatch_action(s, &action),
        None => Effects::nothing(),
    };
    // Hover: only when the key under the pointer changes.
    if !same_label(&hover, &s.last_hover) {
        s.last_hover = hover;
    }
    Ok(effects)
}

} // verus!
