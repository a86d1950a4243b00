//! Layouts as they are written down, and the keys that they resolve to.

use vstd::prelude::*;
use vstd::view::View as _;

use crate::flow::{flow, grid, key_rect, Outline};
use crate::keysyms::{single_char_keysym, BACKSPACE, NO_SYMBOL};
use crate::names::NameMap;
use crate::scalar::{Arithmetic, Rect, Scalar};
use crate::text::{same_text, split_words};

verus! {

/// A layout as it is written down: sizes by name, views by name as rows of button
/// tokens, and what is known of single buttons.
pub struct Layout<N> {
    pub outlines: NameMap<Outline<N>>,
    pub views: NameMap<Vec<String>>,
    pub buttons: NameMap<Button>,
}

/// A button's `action:` value: either a bare name (`erase`, `show_prefs`) or a
/// structured single-key map (`set_view`, `locking`). `Other` is any other
/// structure; it resolves to `Unhandled`.
pub enum ActionSpec {
    Named(String),
    SetView { set_view: String },
    Locking { locking: LockingSpec },
    Other,
}

/// The body of a `locking` action: the view tapped *to* (`lock_view`), and the view
/// tapped *back to* (`unlock_view`) once the lock view is current.
pub struct LockingSpec {
    pub lock_view: String,
    pub unlock_view: String,
}

/// A keysym as a button names it, and the number that the name was looked up to:
/// `NO_SYMBOL` where the name is unknown.
pub struct NamedKeysym {
    pub name: String,
    pub raw: u32,
}

/// What a layout says of a button.
pub struct Button {
    pub outline: Option<String>,
    pub label: Option<String>,
    pub icon: Option<String>,
    /// Emit fields the Key action resolves from; see `resolve_action`.
    pub keysym: Option<NamedKeysym>,
    pub text: Option<String>,
    pub action: Option<ActionSpec>,
    pub modifier: Option<String>,
}

impl Default for Button {
    /// A button of which nothing is said.
    fn default() -> (b: Self)
        ensures
            b.outline is None,
            b.label is None,
            b.icon is None,
            b.keysym is None,
            b.text is None,
            b.action is None,
            b.modifier is None,
    {
        Button {
            outline: None,
            label: None,
            icon: None,
            keysym: None,
            text: None,
            action: None,
            modifier: None,
        }
    }
}

/// Where an icon lies in the atlas of sprites.
#[derive(Debug, Clone, Copy)]
pub struct SpriteRegion<N> {
    pub x: N,
    pub y: N,
    pub w: N,
    pub h: N,
}

/// What a key draws in its cell: a text label *or* a symbolic icon, never both.
#[derive(Debug)]
pub enum KeyFace<N> {
    Text(String),
    Icon(SpriteRegion<N>),
}

/// What a Key *does* when activated — the behavioural counterpart to `KeyFace`.
#[derive(Debug)]
pub enum KeyAction {
    /// Emit a single resolved keysym (letters, digits, Return, BackSpace…).
    EmitKeysym(u32),
    /// Emit literal text, one keysym per char (e.g. the space key's `" "`).
    EmitText(String),
    /// Switch to a named view and stay there. Sticky — no auto-return.
    SetView(String),
    /// Flip between two named views by current view: go to `lock` normally, or back
    /// to `unlock` when `lock` is already current.
    ToggleView { lock: String, unlock: String },
    /// Arm a modifier for exactly the *next* keystroke, then it auto-clears. Tapping
    /// again disarms. Carries the modifier name (e.g. `Control`).
    LatchModifier(String),
    /// An action that is not wired. The key still draws and hit-tests; tapping it
    /// types nothing. Carries a name to report.
    Unhandled(String),
}

/// One drawable key: what to draw, what it does, and where (logical units).
#[derive(Debug)]
pub struct Key<N> {
    pub face: KeyFace<N>,
    pub action: KeyAction,
    pub rect: Rect<N>,
    pub touch_area: Rect<N>,
}

/// One horizontal line of keys within a view.
#[derive(Debug)]
pub struct Row<N> {
    pub keys: Vec<Key<N>>,
}

/// One selectable arrangement of keys (e.g. `base`, `upper`).
#[derive(Debug)]
pub struct View<N> {
    pub name: String,
    pub rows: Vec<Row<N>>,
}

/// All views of a layout, resolved.
#[derive(Debug)]
pub struct Keymap<N> {
    pub views: Vec<View<N>>,
}

/// What a `KeyFace` stands for.
pub enum FaceModel<N> {
    Text(Seq<char>),
    Icon(SpriteRegion<N>),
}

/// What a `KeyAction` stands for.
pub enum ActionModel {
    EmitKeysym(u32),
    EmitText(Seq<char>),
    SetView(Seq<char>),
    ToggleView { lock: Seq<char>, unlock: Seq<char> },
    LatchModifier(Seq<char>),
    Unhandled(Seq<char>),
}

/// What a `Key` stands for.
pub struct KeyModel<N> {
    pub face: FaceModel<N>,
    pub action: ActionModel,
    pub rect: Rect<N>,
    pub touch_area: Rect<N>,
}

/// What a `View` stands for.
pub struct ViewModel<N> {
    pub name: Seq<char>,
    pub rows: Seq<Seq<KeyModel<N>>>,
}

impl<N> KeyFace<N> {
    pub open spec fn model(&self) -> FaceModel<N> {
        match self {
            KeyFace::Text(text) => FaceModel::Text(text@),
            KeyFace::Icon(region) => FaceModel::Icon(*region),
        }
    }
}

impl KeyAction {
    pub open spec fn model(&self) -> ActionModel {
        match self {
            KeyAction::EmitKeysym(keysym) => ActionModel::EmitKeysym(*keysym),
            KeyAction::EmitText(text) => ActionModel::EmitText(text@),
            KeyAction::SetView(name) => ActionModel::SetView(name@),
            KeyAction::ToggleView { lock, unlock } => ActionModel::ToggleView {
                lock: lock@,
                unlock: unlock@,
            },
            KeyAction::LatchModifier(name) => ActionModel::LatchModifier(name@),
            KeyAction::Unhandled(name) => ActionModel::Unhandled(name@),
        }
    }
}

impl Clone for KeyAction {
    /// The same action once more.
    fn clone(&self) -> (copy: Self)
        ensures
            copy.model() == self.model(),
    {
        match self {
            KeyAction::EmitKeysym(keysym) => KeyAction::EmitKeysym(*keysym),
            KeyAction::EmitText(text) => KeyAction::EmitText(text.clone()),
            KeyAction::SetView(name) => KeyAction::SetView(name.clone()),
            KeyAction::ToggleView { lock, unlock } => KeyAction::ToggleView {
                lock: lock.clone(),
                unlock: unlock.clone(),
            },
            KeyAction::LatchModifier(name) => KeyAction::LatchModifier(name.clone()),
            KeyAction::Unhandled(name) => KeyAction::Unhandled(name.clone()),
        }
    }
}

impl<N> Key<N> {
    pub open spec fn model(&self) -> KeyModel<N> {
        KeyModel {
            face: self.face.model(),
            action: self.action.model(),
            rect: self.rect,
            touch_area: self.touch_area,
        }
    }
}

impl<N> KeyModel<N> {
    /// What a key is called: its text, or `[icon]` where it shows an icon.
    pub open spec fn label(self) -> Seq<char> {
        match self.face {
            FaceModel::Text(text) => text,
            FaceModel::Icon(_) => "[icon]"@,
        }
    }
}

impl<N> Key<N> {
    /// A human-readable label for reports (hover/tap). Icon keys have no text, so
    /// they go as `[icon]`.
    pub fn display_label(&self) -> (label: &str)
        ensures
            label@ == self.model().label(),
    {
        match &self.face {
            KeyFace::Text(s) => s.as_str(),
            KeyFace::Icon(_) => "[icon]",
        }
    }
}

/// The size of a button: its named outline where that is defined, else the
/// `default` outline, else the fallback square.
pub open spec fn outline_of<N>(
    m: Arithmetic<N>,
    outlines: Map<Seq<char>, Outline<N>>,
    button: Option<&Button>,
) -> Outline<N> {
    let name = match button {
        Some(b) => match b.outline {
            Some(name) => name@,
            None => "default"@,
        },
        None => "default"@,
    };
    if outlines.contains_key(name) {
        outlines[name]
    } else if outlines.contains_key("default"@) {
        outlines["default"@]
    } else {
        Outline { width: (m.from_u32)(FALLBACK_OUTLINE), height: (m.from_u32)(FALLBACK_OUTLINE) }
    }
}

/// Side of the square used when a button names an outline that isn't defined (and
/// no `default` outline exists to fall back to). Keeps conversion total.
pub const FALLBACK_OUTLINE: u32 = 50;

/// Resolve a button's outline size: the button's named outline, else the `default`
/// outline, else a hard fallback.
pub fn resolve_outline<N: Scalar>(layout: &Layout<N>, button: Option<&Button>) -> (outline: Outline<
    N,
>)
    ensures
        forall|m: Arithmetic<N>| #[trigger]
            crate::scalar::computes(m) ==> outline == outline_of(m, layout.outlines@, button),
        button matches Some(b) ==> (b.outline matches Some(name) ==> (layout.outlines@.contains_key(
            name@,
        ) ==> outline == layout.outlines@[name@])),
        (button is None || button->0.outline is None || !layout.outlines@.contains_key(
            (button->0.outline->0)@,
        )) && layout.outlines@.contains_key("default"@) ==> outline
            == layout.outlines@["default"@],
{
    let name: &str = match button {
        Some(b) => match &b.outline {
            Some(name) => name.as_str(),
            None => "default",
        },
        None => "default",
    };
    if let Some(outline) = layout.outlines.get(name) {
        return *outline;
    }
    match layout.outlines.get("default") {
        Some(outline) => *outline,
        None => Outline {
            width: N::from_u32(FALLBACK_OUTLINE),
            height: N::from_u32(FALLBACK_OUTLINE),
        },
    }
}

/// The face of a button: its icon before its label, an empty text where the icon is
/// unknown, and its own name where it has neither.
pub open spec fn face_of<N>(
    token: Seq<char>,
    button: Option<&Button>,
    icons: Map<Seq<char>, SpriteRegion<N>>,
) -> FaceModel<N> {
    match button {
        Some(b) => match (b.icon, b.label) {
            (Some(icon), _) => if icons.contains_key(icon@) {
                FaceModel::Icon(icons[icon@])
            } else {
                FaceModel::Text(Seq::empty())
            },
            (None, Some(label)) => FaceModel::Text(label@),
            (None, None) => FaceModel::Text(token),
        },
        None => FaceModel::Text(token),
    }
}

/// Resolve a button token's face. Icon wins over label when both are set. An icon
/// name absent from the dictionary falls back to an empty text face, so the key
/// draws its box but no glyph. With neither icon nor label, the button's own name is
/// the label.
pub fn resolve_face<N: Copy>(
    token: &str,
    button: Option<&Button>,
    icons: &NameMap<SpriteRegion<N>>,
) -> (face: KeyFace<N>)
    ensures
        face.model() == face_of(token@, button, icons@),
        button matches Some(b) ==> (b.icon matches Some(icon) ==> face.model() == (
        if icons@.contains_key(icon@) {
            FaceModel::Icon(icons@[icon@])
        } else {
            FaceModel::Text(Seq::empty())
        })),
        button matches Some(b) ==> (b.icon is None ==> (b.label matches Some(label)
            ==> face.model() == FaceModel::<N>::Text(label@))),
        button is None || (button->0.icon is None && button->0.label is None) ==> face.model()
            == FaceModel::<N>::Text(token@),
{
    if let Some(b) = button {
        if let Some(icon) = &b.icon {
            return match icons.get(icon.as_str()) {
                Some(region) => KeyFace::Icon(*region),
                None => KeyFace::Text(String::new()),
            };
        }
        if let Some(label) = &b.label {
            return KeyFace::Text(label.clone());
        }
    }
    KeyFace::Text(token.to_owned())
}

/// What a token does by itself: a single character types its keysym, anything else
/// does nothing.
pub open spec fn token_action(token: Seq<char>) -> ActionModel {
    match crate::keysyms::keysym_of_text(token) {
        Some(keysym) => ActionModel::EmitKeysym(keysym),
        None => ActionModel::Unhandled(token),
    }
}

/// What an `action:` value does.
pub open spec fn spec_action(token: Seq<char>, action: ActionSpec) -> ActionModel {
    match action {
        ActionSpec::Named(name) => if name@ == "erase"@ {
            ActionModel::EmitKeysym(BACKSPACE)
        } else {
            ActionModel::Unhandled(name@)
        },
        ActionSpec::SetView { set_view } => ActionModel::SetView(set_view@),
        ActionSpec::Locking { locking } => ActionModel::ToggleView {
            lock: locking.lock_view@,
            unlock: locking.unlock_view@,
        },
        ActionSpec::Other => ActionModel::Unhandled(token),
    }
}

/// What a button does. The first of these that the layout says decides: a keysym
/// name, an action, a modifier, a text, a label of one character; failing all, the
/// token by itself.
pub open spec fn button_action(token: Seq<char>, b: &Button) -> ActionModel {
    if b.keysym is Some {
        if b.keysym->0.raw != NO_SYMBOL {
            ActionModel::EmitKeysym(b.keysym->0.raw)
        } else {
            ActionModel::Unhandled(token)
        }
    } else if b.action is Some {
        spec_action(token, b.action->0)
    } else if b.modifier is Some {
        if (b.modifier->0)@ == "Control"@ {
            ActionModel::LatchModifier((b.modifier->0)@)
        } else {
            ActionModel::Unhandled(token)
        }
    } else if b.text is Some {
        ActionModel::EmitText((b.text->0)@)
    } else if b.label is Some && crate::keysyms::keysym_of_text((b.label->0)@) is Some {
        ActionModel::EmitKeysym(crate::keysyms::keysym_of_text((b.label->0)@)->0)
    } else {
        token_action(token)
    }
}

/// What a key does.
pub open spec fn action_of(token: Seq<char>, button: Option<&Button>) -> ActionModel {
    match button {
        Some(b) => button_action(token, b),
        None => token_action(token),
    }
}

/// Resolve a button token's Key action — what it does when tapped. Priority:
/// explicit `keysym:`, `action:` (`erase` is BackSpace), `modifier:` (Control only),
/// `text:`, a single-char label, a single-char token. What is left is `Unhandled`.
pub fn resolve_action(token: &str, button: Option<&Button>) -> (action: KeyAction)
    ensures
        action.model() == action_of(token@, button),
        button is None && token@.len() == 1 && crate::keysyms::is_latin1(token@[0])
            ==> action.model() == ActionModel::EmitKeysym(token@[0] as u32),
        // A keysym that the button names.
        button matches Some(b) ==> (b.keysym matches Some(keysym) ==> action.model() == (
        if keysym.raw != NO_SYMBOL {
            ActionModel::EmitKeysym(keysym.raw)
        } else {
            ActionModel::Unhandled(token@)
        })),
        // An action.
        button matches Some(b) ==> (b.keysym is None ==> (b.action matches Some(said) ==> (
        match said {
            ActionSpec::Named(name) => action.model() == (if name@ == "erase"@ {
                ActionModel::EmitKeysym(BACKSPACE)
            } else {
                ActionModel::Unhandled(name@)
            }),
            ActionSpec::SetView { set_view } => action.model() == ActionModel::SetView(set_view@),
            ActionSpec::Locking { locking } => action.model() == (ActionModel::ToggleView {
                lock: locking.lock_view@,
                unlock: locking.unlock_view@,
            }),
            ActionSpec::Other => action.model() == ActionModel::Unhandled(token@),
        }))),
        // A modifier.
        button matches Some(b) ==> (b.keysym is None && b.action is None ==> (
        b.modifier matches Some(name) ==> action.model() == (if name@ == "Control"@ {
            ActionModel::LatchModifier(name@)
        } else {
            ActionModel::Unhandled(token@)
        }))),
        // A text, whole.
        button matches Some(b) ==> (b.keysym is None && b.action is None && b.modifier is None ==> (
        b.text matches Some(text) ==> action.model() == ActionModel::EmitText(text@))),
        // A label of one character.
        button matches Some(b) ==> (b.keysym is None && b.action is None && b.modifier is None
            && b.text is None ==> (b.label matches Some(label) ==> (label@.len() == 1
            && !crate::keysyms::is_noncharacter(label@[0]) ==> action.model()
            == ActionModel::EmitKeysym(crate::keysyms::keysym_of_char(label@[0]))))),
        // The token by itself.
        button is None || (button->0.keysym is None && button->0.action is None
            && button->0.modifier is None && button->0.text is None && (button->0.label is None || (
        button->0.label->0)@.len() != 1 || crate::keysyms::is_noncharacter(
            (button->0.label->0)@[0],
        ))) ==> action.model() == (if token@.len() == 1 && !crate::keysyms::is_noncharacter(
            token@[0],
        ) {
            ActionModel::EmitKeysym(crate::keysyms::keysym_of_char(token@[0]))
        } else {
            ActionModel::Unhandled(token@)
        }),
{
    if let Some(b) = button {
        if let Some(keysym) = &b.keysym {
            if keysym.raw != NO_SYMBOL {
                return KeyAction::EmitKeysym(keysym.raw);
            }
            return KeyAction::Unhandled(token.to_owned());
        }
        if let Some(action) = &b.action {
            return match action {
                ActionSpec::Named(a) => if same_text(a.as_str(), "erase") {
                    KeyAction::EmitKeysym(BACKSPACE)
                } else {
                    KeyAction::Unhandled(a.clone())
                },
                ActionSpec::SetView { set_view } => KeyAction::SetView(set_view.clone()),
                ActionSpec::Locking { locking } => KeyAction::ToggleView {
                    lock: locking.lock_view.clone(),
                    unlock: locking.unlock_view.clone(),
                },
                ActionSpec::Other => KeyAction::Unhandled(token.to_owned()),
            };
        }
        // A modifier button latches for the next keystroke. Only Control is wired;
        // every other modifier defers to `Unhandled`.
        if let Some(m) = &b.modifier {
            if same_text(m.as_str(), "Control") {
                return KeyAction::LatchModifier(m.clone());
            }
            return KeyAction::Unhandled(token.to_owned());
        }
        if let Some(text) = &b.text {
            return KeyAction::EmitText(text.clone());
        }
        if let Some(label) = &b.label {
            if let Some(keysym) = single_char_keysym(label.as_str()) {
                return KeyAction::EmitKeysym(keysym);
            }
        }
    }
    // No button entry (or nothing above matched): a single-char token is itself the
    // keysym — this covers every plain letter/digit/punctuation key.
    match single_char_keysym(token) {
        Some(keysym) => KeyAction::EmitKeysym(keysym),
        None => KeyAction::Unhandled(token.to_owned()),
    }
}

/// The lists of a list, one behind the other.
pub open spec fn flat<A>(lists: Seq<Seq<A>>) -> Seq<A>
    decreases lists.len(),
{
    if lists.len() == 0 {
        Seq::empty()
    } else {
        flat(lists.drop_last()) + lists.last()
    }
}

/// The keys of a list of rows.
pub open spec fn row_models<N>(rows: Seq<Row<N>>) -> Seq<Seq<KeyModel<N>>> {
    Seq::new(rows.len(), |i: int| rows[i].model())
}

/// The names of a list of views.
pub open spec fn view_names<N>(views: Seq<View<N>>) -> Seq<Seq<char>> {
    Seq::new(views.len(), |i: int| views[i].name@)
}

/// What a list of references to keys stands for.
pub open spec fn key_models<N>(keys: Seq<&Key<N>>) -> Seq<KeyModel<N>> {
    Seq::new(keys.len(), |i: int| keys[i].model())
}

impl<N> Row<N> {
    pub open spec fn model(&self) -> Seq<KeyModel<N>> {
        Seq::new(self.keys@.len(), |j: int| self.keys@[j].model())
    }

    /// The row's keys.
    pub fn keys(&self) -> (keys: &[Key<N>])
        ensures
            keys@ == self.keys@,
    {
        self.keys.as_slice()
    }
}

impl<N> ViewModel<N> {
    /// Every key of the view, row by row.
    pub open spec fn all_keys(self) -> Seq<KeyModel<N>> {
        flat(self.rows)
    }

    /// How wide the view is: the rightmost right edge of its keys.
    pub open spec fn extent_x(self, m: Arithmetic<N>) -> N {
        m.largest(right_edges(m, self.all_keys()))
    }

    /// How tall the view is: the lowest bottom edge of its keys.
    pub open spec fn extent_y(self, m: Arithmetic<N>) -> N {
        m.largest(bottom_edges(m, self.all_keys()))
    }
}

/// The right edges of keys.
pub open spec fn right_edges<N>(m: Arithmetic<N>, keys: Seq<KeyModel<N>>) -> Seq<N> {
    Seq::new(keys.len(), |i: int| keys[i].rect.right_edge(m))
}

/// The bottom edges of keys.
pub open spec fn bottom_edges<N>(m: Arithmetic<N>, keys: Seq<KeyModel<N>>) -> Seq<N> {
    Seq::new(keys.len(), |i: int| keys[i].rect.bottom_edge(m))
}

impl<N> View<N> {
    pub open spec fn model(&self) -> ViewModel<N> {
        ViewModel { name: self.name@, rows: row_models(self.rows@) }
    }

    /// Every key in the view, flattened across its rows.
    pub fn keys(&self) -> (keys: Vec<&Key<N>>)
        ensures
            key_models(keys@) == self.model().all_keys(),
    {
        let mut keys: Vec<&Key<N>> = Vec::new();
        let mut i: usize = 0;
        let ghost rows = row_models(self.rows@);
        assert(key_models(keys@) =~= flat(rows.take(0)));
        while i < self.rows.len()
            invariant
                i <= self.rows.len(),
                rows == row_models(self.rows@),
                key_models(keys@) == flat(rows.take(i as int)),
            decreases self.rows.len() - i,
        {
            let row = &self.rows[i];
            let ghost done = key_models(keys@);
            let mut j: usize = 0;
            assert(done + rows[i as int].take(0) =~= done);
            while j < row.keys.len()
                invariant
                    i < self.rows.len(),
                    rows == row_models(self.rows@),
                    rows[i as int] == row.model(),
                    j <= row.keys.len(),
                    key_models(keys@) == done + rows[i as int].take(j as int),
                decreases row.keys.len() - j,
            {
                let ghost had = key_models(keys@);
                keys.push(&row.keys[j]);
                assert(key_models(keys@) =~= had.push(rows[i as int][j as int]));
                j += 1;
                assert(key_models(keys@) =~= done + rows[i as int].take(j as int));
            }
            i += 1;
            assert(rows.take(i as int).drop_last() =~= rows.take(i - 1));
            assert(key_models(keys@) =~= flat(rows.take(i as int)));
        }
        assert(rows.take(i as int) =~= rows);
        keys
    }
}

impl<N: Scalar> View<N> {
    /// The view's intrinsic logical width: the right edge of its widest row.
    pub fn width(&self) -> (width: N)
        ensures
            forall|m: Arithmetic<N>| #[trigger]
                crate::scalar::computes(m) ==> width == self.model().extent_x(m),
    {
        let keys = self.keys();
        let ghost all = self.model().all_keys();
        let mut width = N::from_u32(0);
        let mut i: usize = 0;
        while i < keys.len()
            invariant
                i <= keys.len(),
                key_models(keys@) == all,
                forall|m: Arithmetic<N>| #[trigger]
                    crate::scalar::computes(m) ==> width == m.largest(
                        right_edges(m, all.take(i as int)),
                    ),
            decreases keys.len() - i,
        {
            let edge = keys[i].rect.right();
            width = width.larger(edge);
            proof {
                assert forall|m: Arithmetic<N>| #[trigger] crate::scalar::computes(m) implies width
                    == m.largest(right_edges(m, all.take(i + 1))) by {
                    assert(all[i as int] == keys@[i as int].model());
                    let done = right_edges(m, all.take(i as int));
                    assert(right_edges(m, all.take(i + 1)) =~= done.push(edge));
                    crate::flow::lemma_fold_push(done, edge, m.zero(), m.larger);
                }
            }
            i += 1;
        }
        assert(all.take(i as int) =~= all);
        width
    }

    /// The view's intrinsic logical height: the bottom edge of its last row.
    pub fn height(&self) -> (height: N)
        ensures
            forall|m: Arithmetic<N>| #[trigger]
                crate::scalar::computes(m) ==> height == self.model().extent_y(m),
    {
        let keys = self.keys();
        let ghost all = self.model().all_keys();
        let mut height = N::from_u32(0);
        let mut i: usize = 0;
        while i < keys.len()
            invariant
                i <= keys.len(),
                key_models(keys@) == all,
                forall|m: Arithmetic<N>| #[trigger]
                    crate::scalar::computes(m) ==> height == m.largest(
                        bottom_edges(m, all.take(i as int)),
                    ),
            decreases keys.len() - i,
        {
            let edge = keys[i].rect.bottom();
            height = height.larger(edge);
            proof {
                assert forall|m: Arithmetic<N>| #[trigger] crate::scalar::computes(m) implies height
                    == m.largest(bottom_edges(m, all.take(i + 1))) by {
                    assert(all[i as int] == keys@[i as int].model());
                    let done = bottom_edges(m, all.take(i as int));
                    assert(bottom_edges(m, all.take(i + 1)) =~= done.push(edge));
                    crate::flow::lemma_fold_push(done, edge, m.zero(), m.larger);
                }
            }
            i += 1;
        }
        assert(all.take(i as int) =~= all);
        height
    }
}

/// What a layout says of a token.
pub open spec fn button_of<'a>(buttons: Map<Seq<char>, Button>, token: Seq<char>) -> Option<&'a Button> {
    if buttons.contains_key(token) {
        Some(&buttons[token])
    } else {
        None
    }
}

/// The tokens of a view, row by row.
pub open spec fn tokens_of(rows: Seq<Seq<char>>) -> Seq<Seq<Seq<char>>> {
    Seq::new(rows.len(), |i: int| crate::text::words(rows[i]))
}

impl<N> Layout<N> {
    /// The sizes of a view's keys.
    pub open spec fn sizes_of(
        &self,
        m: Arithmetic<N>,
        tokens: Seq<Seq<Seq<char>>>,
    ) -> Seq<Seq<Outline<N>>> {
        Seq::new(
            tokens.len(),
            |i: int|
                Seq::new(
                    tokens[i].len(),
                    |j: int|
                        outline_of(m, self.outlines@, button_of(self.buttons@, tokens[i][j])),
                ),
        )
    }

    /// Key `j` of row `i` of a view.
    pub open spec fn key_of(
        &self,
        m: Arithmetic<N>,
        icons: Map<Seq<char>, SpriteRegion<N>>,
        tokens: Seq<Seq<Seq<char>>>,
        i: int,
        j: int,
    ) -> KeyModel<N> {
        let token = tokens[i][j];
        let button = button_of(self.buttons@, token);
        let rect = key_rect(m, self.sizes_of(m, tokens), i, j);
        KeyModel {
            face: face_of(token, button, icons),
            action: action_of(token, button),
            rect,
            touch_area: rect,
        }
    }

    /// Whether a key shows and does what its token asks for, and is touched where it
    /// stands.
    pub open spec fn suits(
        &self,
        icons: Map<Seq<char>, SpriteRegion<N>>,
        token: Seq<char>,
        key: KeyModel<N>,
    ) -> bool {
        let button = button_of(self.buttons@, token);
        &&& key.face == face_of(token, button, icons)
        &&& key.action == action_of(token, button)
        &&& key.touch_area == key.rect
    }

    /// Whether rows have a key for each token, in order, that suits it.
    pub open spec fn suit(
        &self,
        icons: Map<Seq<char>, SpriteRegion<N>>,
        tokens: Seq<Seq<Seq<char>>>,
        rows: Seq<Seq<KeyModel<N>>>,
    ) -> bool {
        &&& rows.len() == tokens.len()
        &&& forall|i: int| 0 <= i < rows.len() ==> (#[trigger] rows[i]).len() == tokens[i].len()
        &&& forall|i: int, j: int|
            0 <= i < rows.len() && 0 <= j < rows[i].len() ==> self.suits(
                icons,
                tokens[i][j],
                #[trigger] rows[i][j],
            )
    }

    /// The view that rows of tokens resolve to.
    pub open spec fn view_of(
        &self,
        m: Arithmetic<N>,
        icons: Map<Seq<char>, SpriteRegion<N>>,
        name: Seq<char>,
        rows: Seq<Seq<char>>,
    ) -> ViewModel<N> {
        let tokens = tokens_of(rows);
        ViewModel {
            name,
            rows: Seq::new(
                tokens.len(),
                |i: int| Seq::new(tokens[i].len(), |j: int| self.key_of(m, icons, tokens, i, j)),
            ),
        }
    }
}

impl<N: Scalar> View<N> {
    /// Resolve one view's rows into laid-out keys.
    ///
    /// Two passes: first resolve every key's outline and flow them, then resolve
    /// every key's face and action into the place that it was given.
    pub fn resolve(
        layout: &Layout<N>,
        icons: &NameMap<SpriteRegion<N>>,
        name: &str,
        rows: &Vec<String>,
    ) -> (view: View<N>)
        ensures
            view.name@ == name@,
            layout.suit(icons@, tokens_of(crate::text::texts(rows@)), view.model().rows),
            forall|m: Arithmetic<N>| #[trigger]
                crate::scalar::computes(m) ==> view.model() == layout.view_of(
                    m,
                    icons@,
                    name@,
                    crate::text::texts(rows@),
                ),
    {
        let ghost tokens = tokens_of(crate::text::texts(rows@));
        // Pass 1: resolve the size of every key, grouped by row, and flow them.
        let mut split: Vec<Vec<String>> = Vec::new();
        let mut sized: Vec<Vec<Outline<N>>> = Vec::new();
        let mut i: usize = 0;
        while i < rows.len()
            invariant
                i <= rows.len(),
                tokens == tokens_of(crate::text::texts(rows@)),
                split.len() == i,
                sized.len() == i,
                forall|k: int|
                    0 <= k < i ==> crate::text::texts(#[trigger] split@[k]@) == tokens[k],
                forall|k: int| 0 <= k < i ==> #[trigger] sized@[k].len() == split@[k].len(),
                forall|m: Arithmetic<N>, k: int|
                    crate::scalar::computes(m) && 0 <= k < i ==> (#[trigger] sized@[k])@
                        == #[trigger] layout.sizes_of(m, tokens)[k],
            decreases rows.len() - i,
        {
            let row = split_words(rows[i].as_str());
            let mut sizes: Vec<Outline<N>> = Vec::new();
            let mut j: usize = 0;
            assert(tokens[i as int] == crate::text::texts(row@));
            while j < row.len()
                invariant
                    i < rows.len(),
                    i < tokens.len(),
                    j <= row.len(),
                    tokens[i as int] == crate::text::texts(row@),
                    sizes.len() == j,
                    forall|m: Arithmetic<N>, k: int|
                        crate::scalar::computes(m) && 0 <= k < j ==> sizes@[k] == #[trigger]
                        layout.sizes_of(m, tokens)[i as int][k],
                decreases row.len() - j,
            {
                let button = layout.buttons.get(row[j].as_str());
                assert(tokens[i as int][j as int] == row@[j as int]@);
                sizes.push(resolve_outline(layout, button));
                j += 1;
            }
            proof {
                assert forall|m: Arithmetic<N>| #[trigger] crate::scalar::computes(m) implies sizes@
                    == layout.sizes_of(m, tokens)[i as int] by {
                    assert(sizes@ =~= layout.sizes_of(m, tokens)[i as int]);
                }
            }
            split.push(row);
            sized.push(sizes);
            i += 1;
        }
        let placed = flow(&sized);
        proof {
            assert forall|m: Arithmetic<N>| #[trigger] crate::scalar::computes(m) implies grid(
                sized@,
            ) == layout.sizes_of(m, tokens) by {
                assert(grid(sized@) =~= layout.sizes_of(m, tokens));
            }
        }
        // Pass 2: what every key shows and does, where it stands.
        let mut out_rows: Vec<Row<N>> = Vec::new();
        i = 0;
        while i < rows.len()
            invariant
                i <= rows.len(),
                tokens == tokens_of(crate::text::texts(rows@)),
                split.len() == rows.len(),
                sized.len() == rows.len(),
                placed.len() == rows.len(),
                forall|k: int|
                    0 <= k < rows.len() ==> crate::text::texts(#[trigger] split@[k]@) == tokens[k],
                forall|k: int|
                    0 <= k < rows.len() ==> #[trigger] placed@[k].len() == sized@[k].len(),
                forall|k: int|
                    0 <= k < rows.len() ==> #[trigger] sized@[k].len() == split@[k].len(),
                forall|m: Arithmetic<N>| #[trigger]
                    crate::scalar::computes(m) ==> grid(sized@) == layout.sizes_of(m, tokens),
                forall|m: Arithmetic<N>, k: int, j: int|
                    crate::scalar::computes(m) && 0 <= k < rows.len() && 0 <= j < sized@[k].len()
                        ==> placed@[k]@[j] == #[trigger] key_rect(m, grid(sized@), k, j),
                out_rows.len() == i,
                forall|k: int|
                    0 <= k < i ==> (#[trigger] out_rows@[k]).keys.len() == tokens[k].len(),
                forall|k: int, j: int|
                    0 <= k < i && 0 <= j < out_rows@[k].keys.len() ==> layout.suits(
                        icons@,
                        tokens[k][j],
                        (#[trigger] out_rows@[k].keys@[j]).model(),
                    ),
                forall|m: Arithmetic<N>, k: int|
                    #![trigger crate::scalar::computes(m), out_rows@[k]]
                    crate::scalar::computes(m) && 0 <= k < i ==> out_rows@[k].model()
                        == layout.view_of(
                        m,
                        icons@,
                        name@,
                        crate::text::texts(rows@),
                    ).rows[k],
            decreases rows.len() - i,
        {
            let row = &split[i];
            let spots = &placed[i];
            let mut keys: Vec<Key<N>> = Vec::new();
            let mut j: usize = 0;
            assert(sized@[i as int].len() == split@[i as int].len());
            while j < row.len()
                invariant
                    i < rows.len(),
                    i < tokens.len(),
                    j <= row.len(),
                    row.len() == spots.len(),
                    tokens[i as int] == crate::text::texts(row@),
                    forall|m: Arithmetic<N>, k: int|
                        #![trigger crate::scalar::computes(m), spots@[k]]
                        crate::scalar::computes(m) && 0 <= k < row.len() ==> spots@[k] == key_rect(
                            m,
                            layout.sizes_of(m, tokens),
                            i as int,
                            k,
                        ),
                    keys.len() == j,
                    forall|k: int|
                        0 <= k < j ==> layout.suits(
                            icons@,
                            tokens[i as int][k],
                            (#[trigger] keys@[k]).model(),
                        ),
                    forall|m: Arithmetic<N>, k: int|
                        #![trigger crate::scalar::computes(m), keys@[k]]
                        crate::scalar::computes(m) && 0 <= k < j ==> keys@[k].model()
                            == layout.key_of(m, icons@, tokens, i as int, k),
                decreases row.len() - j,
            {
                let token = row[j].as_str();
                let button = layout.buttons.get(token);
                assert(tokens[i as int][j as int] == token@);
                let rect = spots[j];
                let key = Key {
                    face: resolve_face(token, button, icons),
                    action: resolve_action(token, button),
                    rect,
                    touch_area: rect,
                };
                keys.push(key);
                j += 1;
            }
            let out_row = Row { keys };
            proof {
                assert forall|m: Arithmetic<N>| #[trigger]
                    crate::scalar::computes(m) implies out_row.model() == layout.view_of(
                    m,
                    icons@,
                    name@,
                    crate::text::texts(rows@),
                ).rows[i as int] by {
                    assert(out_row.model() =~= layout.view_of(
                        m,
                        icons@,
                        name@,
                        crate::text::texts(rows@),
                    ).rows[i as int]);
                }
            }
            out_rows.push(out_row);
            i += 1;
        }
        let view = View { name: name.to_owned(), rows: out_rows };
        proof {
            assert forall|m: Arithmetic<N>| #[trigger]
                crate::scalar::computes(m) implies view.model() == layout.view_of(
                m,
                icons@,
                name@,
                crate::text::texts(rows@),
            ) by {
                assert(view.model().rows =~= layout.view_of(
                    m,
                    icons@,
                    name@,
                    crate::text::texts(rows@),
                ).rows);
            }
        }
        view
    }
}

} // verus!
