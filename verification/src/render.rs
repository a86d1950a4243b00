//! Drawing the bar: which buffer, and what goes into it.

use vstd::prelude::*;
use vstd::view::View as _;

use crate::layout::{FaceModel, Key, KeyAction, KeyFace, KeyModel, SpriteRegion, View, ViewModel};
use crate::scalar::{scale_rect, Arithmetic, Rect, Scalar};
use crate::sizing::handle_rect;
use crate::state::MechanixKeyboardState;
use crate::text::is_blank;
use crate::virtual_keyboard::VirtualKeyboardState;
use crate::window::WindowState;

verus! {

/// One buffer the bar renders into. Two of these are swapped front/back; `released`
/// tracks whether the compositor has handed the buffer back so we can draw into it
/// again.
#[derive(Debug, Clone, Copy, PartialEq, Eq, Structural)]
pub struct Slot {
    pub buffer_id: u64,
    pub released: bool,
}

/// The two slots the bar double-buffers between, with nothing drawn in them yet.
pub fn alloc_slots(ids: [u64; 2]) -> (slots: [Slot; 2])
    ensures
        slots@[0] == (Slot { buffer_id: ids@[0], released: true }),
        slots@[1] == (Slot { buffer_id: ids@[1], released: true }),
{
    [Slot { buffer_id: ids[0], released: true }, Slot { buffer_id: ids[1], released: true }]
}

/// The buffers that a configure event asked for are there.
pub fn install_slots<N>(s: &mut MechanixKeyboardState<N>, ids: [u64; 2])
    requires
        old(s).wf(),
        old(s).window matches Some(window) && window.logical_width != 0 && window.logical_height
            != 0,
    ensures
        final(s).wf(),
        final(s).window matches Some(window) && window.slots matches Some(slots) && slots@ == seq![
            Slot { buffer_id: ids@[0], released: true },
            Slot { buffer_id: ids@[1], released: true },
        ],
        final(s).window == Some(
            WindowState { slots: final(s).window->0.slots, ..old(s).window->0 },
        ),
        *final(s) == (MechanixKeyboardState { window: final(s).window, ..*old(s) }),
{
    let slots = alloc_slots(ids);
    assert(slots@ =~= seq![
        Slot { buffer_id: ids@[0], released: true },
        Slot { buffer_id: ids@[1], released: true },
    ]);
    if let Some(window) = &mut s.window {
        window.slots = Some(slots);
    }
}

/// The high and the low half of a buffer's format modifier, as the protocol takes it.
pub fn split_modifier(modifier: u64) -> (halves: (u32, u32))
    ensures
        halves.0 * 0x1_0000_0000 + halves.1 == modifier,
{
    assert((modifier >> 32) as u32 == modifier >> 32 && (modifier & 0xffff_ffff) as u32
        == modifier & 0xffff_ffff && (modifier >> 32) * 0x1_0000_0000 + (modifier & 0xffff_ffff)
        == modifier) by (bit_vector);
    ((modifier >> 32) as u32, (modifier & 0xffff_ffff) as u32)
}

/// What to do about a frame.
#[derive(Debug, Clone, Copy, PartialEq, Eq, Structural)]
pub enum RenderStep {
    /// There is nothing to draw into.
    Skip,
    /// The back buffer is still held by the compositor; the frame is drawn once it is
    /// released.
    Defer,
    /// Draw into the slot of this index, and damage a surface of this logical size.
    Draw { slot: usize, logical_width: u32, logical_height: u32 },
}

impl<N> MechanixKeyboardState<N> {
    /// The slot that the next frame goes to.
    pub open spec fn back_slot(&self) -> Option<Slot> {
        match self.window {
            Some(window) => match window.slots {
                Some(slots) => Some(slots@[window.back as int]),
                None => None,
            },
            None => None,
        }
    }

    /// What is to be done about a frame.
    pub open spec fn render_step(&self) -> RenderStep {
        match self.back_slot() {
            Some(slot) => if slot.released {
                RenderStep::Draw {
                    slot: self.window->0.back,
                    logical_width: self.window->0.logical_width,
                    logical_height: self.window->0.logical_height,
                }
            } else {
                RenderStep::Defer
            },
            None => RenderStep::Skip,
        }
    }

    /// The slots once the buffer `id` is released.
    pub open spec fn with_released(slots: Seq<Slot>, id: u64) -> Seq<Slot> {
        Seq::new(
            slots.len(),
            |i: int|
                Slot {
                    buffer_id: slots[i].buffer_id,
                    released: slots[i].released || slots[i].buffer_id == id,
                },
        )
    }

    /// What presenting a frame does: the back buffer is the compositor's, the other one is the
    /// back one, no frame is pending, and the callback is awaited.
    pub open spec fn presented(
        &self,
        callback: Option<u64>,
        next: MechanixKeyboardState<N>,
    ) -> bool {
        let window = self.window->0;
        let back = window.back as int;
        &&& next.window is Some
        &&& next.window->0.slots is Some
        &&& (next.window->0.slots->0)@ == (window.slots->0)@.update(
            back,
            Slot { released: false, ..(window.slots->0)@[back] },
        )
        &&& next.window->0 == (WindowState {
            slots: next.window->0.slots,
            back: (1 - window.back) as usize,
            pending_frame: false,
            ..window
        })
        &&& next.frame_callbacks@ == (if callback is Some {
            self.frame_callbacks@.insert(callback->0)
        } else {
            self.frame_callbacks@
        })
        &&& next == (MechanixKeyboardState {
            window: next.window,
            frame_callbacks: next.frame_callbacks,
            ..*self
        })
    }

    /// What the release of a buffer does: it is marked, and a pending frame is to be retried.
    pub open spec fn handed_back(
        &self,
        id: Option<u64>,
        retry: bool,
        next: MechanixKeyboardState<N>,
    ) -> bool {
        &&& retry == (id is Some && self.window is Some && self.window->0.pending_frame)
        &&& if id is Some && self.back_slot() is Some {
            &&& next.window is Some
            &&& next.window->0.slots is Some
            &&& (next.window->0.slots->0)@ == Self::with_released(
                (self.window->0.slots->0)@,
                id->0,
            )
            &&& next.window->0 == (WindowState {
                slots: next.window->0.slots,
                ..self.window->0
            })
            &&& next == (MechanixKeyboardState { window: next.window, ..*self })
        } else {
            next == *self
        }
    }

    /// A frame that waited for its buffer is drawn once that buffer is released.
    pub proof fn lemma_deferred_frame_is_drawn(&self, next: &MechanixKeyboardState<N>, id: u64)
        requires
            self.wf(),
            self.render_step() == RenderStep::Defer,
            self.back_slot() == Some(Slot { buffer_id: id, released: false }),
            next.window matches Some(window) && window.back == self.window->0.back && (
            window.slots matches Some(slots) && slots@ == Self::with_released(
                self.window->0.slots->0@,
                id,
            )),
        ensures
            next.render_step() is Draw,
    {
    }
}

/// Decide about a frame. If the back buffer is still held by the compositor, the frame is
/// marked pending so that it is retried on the next buffer release.
pub fn render<N>(s: &mut MechanixKeyboardState<N>) -> (step: RenderStep)
    requires
        old(s).wf(),
    ensures
        final(s).wf(),
        step == old(s).render_step(),
        *final(s) == (if step == RenderStep::Defer {
            MechanixKeyboardState {
                window: Some(WindowState { pending_frame: true, ..old(s).window->0 }),
                ..*old(s)
            }
        } else {
            *old(s)
        }),
{
    match &mut s.window {
        Some(window) => match &window.slots {
            Some(slots) => {
                if !slots[window.back].released {
                    window.pending_frame = true;
                    return RenderStep::Defer;
                }
                RenderStep::Draw {
                    slot: window.back,
                    logical_width: window.logical_width,
                    logical_height: window.logical_height,
                }
            },
            None => RenderStep::Skip,
        },
        None => RenderStep::Skip,
    }
}

/// The back buffer has been drawn and committed: it is the compositor's now, the other
/// one is next, and the frame callback that was asked for is awaited.
pub fn present<N>(s: &mut MechanixKeyboardState<N>, callback: Option<u64>)
    requires
        old(s).wf(),
        old(s).back_slot() is Some,
    ensures
        final(s).wf(),
        old(s).presented(callback, *final(s)),
        final(s).frame_callbacks@ == (match callback {
            Some(id) => old(s).frame_callbacks@.insert(id),
            None => old(s).frame_callbacks@,
        }),
        final(s).window matches Some(window) && window.slots matches Some(slots) && slots@
            == old(s).window->0.slots->0@.update(
            old(s).window->0.back as int,
            Slot { released: false, ..old(s).back_slot()->0 },
        ),
        final(s).window == Some(
            WindowState {
                slots: final(s).window->0.slots,
                back: (1 - old(s).window->0.back) as usize,
                pending_frame: false,
                ..old(s).window->0
            },
        ),
        *final(s) == (MechanixKeyboardState {
            window: final(s).window,
            frame_callbacks: final(s).frame_callbacks,
            ..*old(s)
        }),
{
    if let Some(window) = &mut s.window {
        let back: usize = window.back;
        if let Some(slots) = &mut window.slots {
            slots[back].released = false;
        }
        window.back = 1 - back;
        window.pending_frame = false;
    }
    if let Some(id) = callback {
        s.frame_callbacks.insert(id);
    }
}

/// The compositor handed a buffer back; mark it drawable, and say whether a frame was
/// waiting. `id` is `None` for a buffer that is gone.
pub fn on_buffer_release<N>(s: &mut MechanixKeyboardState<N>, id: Option<u64>) -> (retry: bool)
    requires
        old(s).wf(),
    ensures
        final(s).wf(),
        old(s).handed_back(id, retry, *final(s)),
        retry == (id is Some && (old(s).window matches Some(window) && window.pending_frame)),
        old(s).back_slot() is None || id is None ==> *final(s) == *old(s),
        old(s).back_slot() is Some && id is Some ==> {
            &&& final(s).window matches Some(window) && window.slots matches Some(slots) && slots@
                == MechanixKeyboardState::<N>::with_released(
                old(s).window->0.slots->0@,
                id->0,
            )
            &&& final(s).window == Some(
                WindowState { slots: final(s).window->0.slots, ..old(s).window->0 },
            )
            &&& *final(s) == (MechanixKeyboardState { window: final(s).window, ..*old(s) })
        },
{
    let id: u64 = match id {
        Some(id) => id,
        None => return false,
    };
    match &mut s.window {
        Some(window) => {
            if let Some(slots) = &mut window.slots {
                let ghost was = slots@;
                if slots[0].buffer_id == id {
                    slots[0].released = true;
                }
                if slots[1].buffer_id == id {
                    slots[1].released = true;
                }
                assert(slots@ =~= MechanixKeyboardState::<N>::with_released(was, id));
            }
            window.pending_frame
        },
        None => false,
    }
}

/// Logical inset applied to every key box so adjacent keys — which butt together — show a
/// visible gap. Scaled to pixels alongside the layout.
pub const KEY_INSET: u32 = 2;

/// The fraction of a key's inner height that the side of its icon has: one over this.
pub const ICON_DIVISOR: u32 = 2;

/// A font that labels are set in.
///
/// Nothing is asked of it but that it answers.
pub trait Typeface<N> {
    /// How wide `text` is.
    fn measure_width(&self, text: &str) -> N;

    /// How far below the top of a box of this height the baseline of a label is.
    fn baseline_offset(&self, height: N) -> N;
}

/// The measures of a font, as functions.
#[verifier::reject_recursive_types(N)]
pub struct Metrics<N> {
    pub width: spec_fn(Seq<char>) -> N,
    pub baseline: spec_fn(N) -> N,
}

/// Whether a font measures as `t` says, whenever it answers.
pub open spec fn measures<N, F: Typeface<N>>(font: F, t: Metrics<N>) -> bool {
    &&& forall|text: &str, w: N|
        call_ensures(F::measure_width, (&font, text), w) ==> w == (t.width)(text@)
    &&& forall|height: N, y: N|
        call_ensures(F::baseline_offset, (&font, height), y) ==> y == (t.baseline)(height)
}

/// One thing to draw, in buffer pixels. What comes later covers what comes earlier.
#[derive(Debug)]
pub enum DrawCommand<N> {
    /// Clear the whole buffer.
    Clear,
    /// The box of a key; `armed` highlights it.
    KeyBox { rect: Rect<N>, armed: bool },
    /// A label, from where it begins on its baseline.
    Label { text: String, x: N, baseline: N, armed: bool },
    /// An icon, from its upper left corner.
    Icon { region: SpriteRegion<N>, x: N, y: N, side: N, armed: bool },
    /// The Handle.
    Handle { rect: Rect<N> },
}

/// What a `DrawCommand` stands for.
pub enum DrawModel<N> {
    Clear,
    KeyBox { rect: Rect<N>, armed: bool },
    Label { text: Seq<char>, x: N, baseline: N, armed: bool },
    Icon { region: SpriteRegion<N>, x: N, y: N, side: N, armed: bool },
    Handle { rect: Rect<N> },
}

impl<N> DrawCommand<N> {
    pub open spec fn model(&self) -> DrawModel<N> {
        match self {
            DrawCommand::Clear => DrawModel::Clear,
            DrawCommand::KeyBox { rect, armed } => DrawModel::KeyBox { rect: *rect, armed: *armed },
            DrawCommand::Label { text, x, baseline, armed } => DrawModel::Label {
                text: text@,
                x: *x,
                baseline: *baseline,
                armed: *armed,
            },
            DrawCommand::Icon { region, x, y, side, armed } => DrawModel::Icon {
                region: *region,
                x: *x,
                y: *y,
                side: *side,
                armed: *armed,
            },
            DrawCommand::Handle { rect } => DrawModel::Handle { rect: *rect },
        }
    }
}

/// What a list of commands stands for.
pub open spec fn draw_models<N>(commands: Seq<DrawCommand<N>>) -> Seq<DrawModel<N>> {
    Seq::new(commands.len(), |i: int| commands[i].model())
}

/// The box of a key at `k` pixels to the layout unit: its rectangle, drawn in on every
/// side, and not below nothing.
pub open spec fn key_box<N>(m: Arithmetic<N>, rect: Rect<N>, k: N) -> Rect<N> {
    let inset = (m.times)((m.from_u32)(KEY_INSET), k);
    let both = (m.times)((m.from_u32)(2), inset);
    Rect {
        x: (m.plus)((m.times)(rect.x, k), inset),
        y: (m.plus)((m.times)(rect.y, k), inset),
        width: (m.larger)((m.minus)((m.times)(rect.width, k), both), m.zero()),
        height: (m.larger)((m.minus)((m.times)(rect.height, k), both), m.zero()),
    }
}

/// Where something of `size` begins so that it is centred in `room` from `from` on.
pub open spec fn centred<N>(m: Arithmetic<N>, from: N, room: N, size: N) -> N {
    (m.plus)(from, (m.over)((m.minus)(room, size), (m.from_u32)(2)))
}

/// In real numbers, what is centred is centred: the room before it is the room behind it.
pub proof fn lemma_centred_leaves_equal_room(from: real, room: real, size: real)
    ensures
        ({
            let before = centred(crate::flow::exact(), from, room, size) - from;
            let behind = room - size - before;
            before == behind
        }),
{
    crate::flow::lemma_halves(room - size);
}

/// In real numbers, keys that butt together show a gap: between the boxes of two
/// neighbours in a row there are two insets, where the left one is wide enough to have a
/// box at all.
pub proof fn lemma_neighbours_show_a_gap(
    rows: Seq<Seq<crate::flow::Outline<real>>>,
    i: int,
    j: int,
    k: real,
)
    requires
        0 <= i < rows.len(),
        0 <= j,
        j + 1 < rows[i].len(),
        k >= 0real,
        rows[i][j].width >= 2real * (KEY_INSET as real),
    ensures
        ({
            let m = crate::flow::exact();
            let left = key_box(m, crate::flow::key_rect(m, rows, i, j), k);
            let right = key_box(m, crate::flow::key_rect(m, rows, i, j + 1), k);
            right.x == left.right_edge(m) + 2real * (KEY_INSET as real * k)
        }),
{
    let m = crate::flow::exact();
    crate::flow::lemma_keys_butt_together(m, rows, i, j);
    let x = crate::flow::key_rect(m, rows, i, j).x;
    let w = rows[i][j].width;
    assert((x + w) * k == x * k + w * k) by (nonlinear_arith);
    assert(w * k >= 2real * (2real * k)) by (nonlinear_arith)
        requires
            w >= 4real,
            k >= 0real,
    ;
}

/// How long the side of an icon is in a box of this height.
pub open spec fn icon_side<N>(m: Arithmetic<N>, height: N) -> N {
    (m.times)(height, (m.over)((m.from_u32)(1), (m.from_u32)(ICON_DIVISOR)))
}

/// Whether a key latches a modifier that is armed.
pub open spec fn is_armed<N>(key: KeyModel<N>, armed: Set<Seq<char>>) -> bool {
    key.action matches crate::layout::ActionModel::LatchModifier(name) && armed.contains(name)
}

/// What is drawn of a key: its box, and on it its face, where there is an atlas to draw
/// it from and something to see.
pub open spec fn key_drawing<N>(
    m: Arithmetic<N>,
    t: Metrics<N>,
    armed: Set<Seq<char>>,
    textured: bool,
    k: N,
    key: KeyModel<N>,
) -> Seq<DrawModel<N>> {
    let b = key_box(m, key.rect, k);
    let lit = is_armed(key, armed);
    let back = seq![DrawModel::KeyBox { rect: b, armed: lit }];
    if !textured {
        back
    } else {
        match key.face {
            FaceModel::Text(text) => if crate::text::blank(text) {
                back
            } else {
                back.push(
                    DrawModel::Label {
                        text,
                        x: centred(m, b.x, b.width, (t.width)(text)),
                        baseline: (m.plus)(b.y, (t.baseline)(b.height)),
                        armed: lit,
                    },
                )
            },
            FaceModel::Icon(region) => {
                let side = icon_side(m, b.height);
                back.push(
                    DrawModel::Icon {
                        region,
                        x: centred(m, b.x, b.width, side),
                        y: centred(m, b.y, b.height, side),
                        side,
                        armed: lit,
                    },
                )
            },
        }
    }
}

/// What is drawn of keys, one after the other.
pub open spec fn keys_drawing<N>(
    m: Arithmetic<N>,
    t: Metrics<N>,
    armed: Set<Seq<char>>,
    textured: bool,
    k: N,
    keys: Seq<KeyModel<N>>,
) -> Seq<DrawModel<N>>
    decreases keys.len(),
{
    if keys.len() == 0 {
        Seq::empty()
    } else {
        keys_drawing(m, t, armed, textured, k, keys.drop_last()) + key_drawing(
            m,
            t,
            armed,
            textured,
            k,
            keys.last(),
        )
    }
}

/// What is drawn of a view: its keys, scaled uniformly so that the view fills the width
/// of the buffer. A view without width draws nothing.
pub open spec fn view_drawing<N>(
    m: Arithmetic<N>,
    t: Metrics<N>,
    armed: Set<Seq<char>>,
    textured: bool,
    buffer_w: N,
    view: ViewModel<N>,
) -> Seq<DrawModel<N>> {
    if (m.is_positive)(view.extent_x(m)) {
        keys_drawing(
            m,
            t,
            armed,
            textured,
            (m.over)(buffer_w, view.extent_x(m)),
            view.all_keys(),
        )
    } else {
        Seq::empty()
    }
}

/// The box of a key.
fn inset_box<N: Scalar>(rect: Rect<N>, k: N) -> (b: Rect<N>)
    ensures
        forall|m: Arithmetic<N>| #[trigger] crate::scalar::computes(m) ==> b == key_box(m, rect, k),
{
    let inset = N::from_u32(KEY_INSET).times(k);
    let both = N::from_u32(2).times(inset);
    Rect {
        x: rect.x.times(k).plus(inset),
        y: rect.y.times(k).plus(inset),
        width: rect.width.times(k).minus(both).larger(N::from_u32(0)),
        height: rect.height.times(k).minus(both).larger(N::from_u32(0)),
    }
}

/// Draw one key: a filled box, its face (text label or icon) centred on top.
fn draw_key<N: Scalar, F: Typeface<N>>(
    commands: &mut Vec<DrawCommand<N>>,
    key: &Key<N>,
    latches: &VirtualKeyboardState,
    font: &F,
    textured: bool,
    k: N,
)
    ensures
        forall|m: Arithmetic<N>, t: Metrics<N>| #[trigger]
            crate::scalar::computes(m) && #[trigger] measures(*font, t) ==> draw_models(
                final(commands)@,
            ) == draw_models(old(commands)@) + key_drawing(
                m,
                t,
                latches.armed(),
                textured,
                k,
                key.model(),
            ),
{
    let ghost had = draw_models(commands@);
    let b = inset_box(key.rect, k);
    let armed: bool = match &key.action {
        KeyAction::LatchModifier(name) => latches.is_latched(name.as_str()),
        _ => false,
    };
    commands.push(DrawCommand::KeyBox { rect: b, armed });
    assert(draw_models(commands@) =~= had + seq![DrawModel::KeyBox { rect: b, armed }]);
    // The face draws over the box.
    if !textured {
        return;
    }
    match &key.face {
        KeyFace::Text(text) => {
            if is_blank(text.as_str()) {
                return;
            }
            let text_w = font.measure_width(text.as_str());
            let x = b.x.plus(b.width.minus(text_w).over(N::from_u32(2)));
            let baseline = b.y.plus(font.baseline_offset(b.height));
            commands.push(DrawCommand::Label { text: text.clone(), x, baseline, armed });
            assert(draw_models(commands@) =~= had + seq![
                DrawModel::KeyBox { rect: b, armed },
            ].push(DrawModel::Label { text: text@, x, baseline, armed }));
        },
        KeyFace::Icon(region) => {
            // Square, sized to a fraction of the key's inner height, centred on both axes
            // (an icon has no text baseline to sit on).
            let side = b.height.times(N::from_u32(1).over(N::from_u32(ICON_DIVISOR)));
            let x = b.x.plus(b.width.minus(side).over(N::from_u32(2)));
            let y = b.y.plus(b.height.minus(side).over(N::from_u32(2)));
            commands.push(DrawCommand::Icon { region: *region, x, y, side, armed });
            assert(draw_models(commands@) =~= had + seq![
                DrawModel::KeyBox { rect: b, armed },
            ].push(DrawModel::Icon { region: *region, x, y, side, armed }));
        },
    }
}

/// Draw one view's keys: a box per key, its face centred on top. The whole view is scaled
/// uniformly to fill the width of the buffer, which keeps the layout's aspect ratio — the
/// bar's height was sized to match.
pub fn draw_view<N: Scalar, F: Typeface<N>>(
    view: &View<N>,
    latches: &VirtualKeyboardState,
    font: &F,
    textured: bool,
    buffer_w: N,
) -> (commands: Vec<DrawCommand<N>>)
    ensures
        forall|m: Arithmetic<N>, t: Metrics<N>| #[trigger]
            crate::scalar::computes(m) && #[trigger] measures(*font, t) ==> draw_models(commands@)
                == view_drawing(m, t, latches.armed(), textured, buffer_w, view.model()),
{
    let mut commands: Vec<DrawCommand<N>> = Vec::new();
    let view_w = view.width();
    assert(draw_models(commands@) =~= Seq::empty());
    if !view_w.is_positive() {
        return commands;
    }
    let k = buffer_w.over(view_w);
    let keys = view.keys();
    let ghost all = view.model().all_keys();
    let mut i: usize = 0;
    while i < keys.len()
        invariant
            i <= keys.len(),
            crate::layout::key_models(keys@) == all,
            forall|m: Arithmetic<N>, t: Metrics<N>| #[trigger]
                crate::scalar::computes(m) && #[trigger] measures(*font, t) ==> draw_models(
                    commands@,
                ) == keys_drawing(m, t, latches.armed(), textured, k, all.take(i as int)),
        decreases keys.len() - i,
    {
        draw_key(&mut commands, keys[i], latches, font, textured, k);
        assert(all[i as int] == keys@[i as int].model());
        assert(all.take(i + 1).drop_last() =~= all.take(i as int));
        i += 1;
    }
    assert(all.take(i as int) =~= all);
    commands
}

impl<N> MechanixKeyboardState<N> {
    /// What a frame shows: the clear colour; the shown view, while the keyboard is
    /// visible; and the Handle, always.
    pub open spec fn frame_drawing(&self, m: Arithmetic<N>, t: Metrics<N>) -> Seq<DrawModel<N>> {
        let window = self.window->0;
        let buffer_w = (m.from_u32)(window.physical_width);
        let keys = match self.shown() {
            Some(view) => if window.visible {
                view_drawing(
                    m,
                    t,
                    self.virtual_keyboard_state.armed(),
                    self.atlas_texture,
                    buffer_w,
                    view.model(),
                )
            } else {
                Seq::empty()
            },
            None => Seq::empty(),
        };
        let handle = match self.handle_of(m) {
            Some(rect) => seq![
                DrawModel::Handle {
                    rect: rect.scaled(m, (m.over)(buffer_w, (m.from_u32)(window.logical_width))),
                },
            ],
            None => Seq::empty(),
        };
        seq![DrawModel::Clear] + keys + handle
    }
}

/// What to draw into a frame.
pub fn draw_frame<N: Scalar, F: Typeface<N>>(s: &MechanixKeyboardState<N>, font: &F) -> (commands:
    Vec<DrawCommand<N>>)
    requires
        s.window is Some,
    ensures
        forall|m: Arithmetic<N>, t: Metrics<N>| #[trigger]
            crate::scalar::computes(m) && #[trigger] measures(*font, t) ==> draw_models(commands@)
                == s.frame_drawing(m, t),
{
    let mut commands: Vec<DrawCommand<N>> = Vec::new();
    commands.push(DrawCommand::Clear);
    assert(draw_models(commands@) =~= seq![DrawModel::Clear]);
    if let Some(window) = &s.window {
        let buffer_w = N::from_u32(window.physical_width);
        if window.visible {
            if let Some(view) = s.current_view() {
                let mut keys = draw_view(
                    view,
                    &s.virtual_keyboard_state,
                    font,
                    s.atlas_texture,
                    buffer_w,
                );
                let ghost had = draw_models(commands@);
                let ghost more = draw_models(keys@);
                commands.append(&mut keys);
                assert(draw_models(commands@) =~= had + more);
            }
        }
        let ghost had = draw_models(commands@);
        if let Some(rect) = handle_rect(s) {
            let scale = buffer_w.over(N::from_u32(window.logical_width));
            let rect = scale_rect(rect, scale);
            commands.push(DrawCommand::Handle { rect });
            assert(draw_models(commands@) =~= had + seq![DrawModel::Handle { rect }]);
        } else {
            assert(had =~= had + Seq::<DrawModel<N>>::empty());
        }
    }
    assert forall|m: Arithmetic<N>, t: Metrics<N>| #[trigger]
        crate::scalar::computes(m) && #[trigger] measures(*font, t) implies draw_models(commands@)
        == s.frame_drawing(m, t) by {
        assert(draw_models(commands@) =~= s.frame_drawing(m, t));
    }
    commands
}

} // verus!
