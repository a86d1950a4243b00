//! What is drawn, in real numbers.

use vstd::prelude::*;

use crate::layout::{ActionModel, FaceModel, KeyModel, ViewModel};
use crate::laws::{has_no_width, spans};
use crate::render::{DrawModel, Metrics, Slot};
use crate::scalar::Rect;
use crate::state::MechanixKeyboardState;

verus! {

/// Whether `piece` is what is drawn of a key at `k` pixels to the layout unit: first its box,
/// which is its rectangle drawn in by two layout units on every side, and lit where the key
/// latches a modifier that is armed; and behind that its face, if it has one to draw.
///
/// A label is in the middle of the box from left to right, on the baseline that its font
/// gives. An icon is a square of half the height of the box, in the middle of it.
pub open spec fn draws(
    piece: Seq<DrawModel<real>>,
    t: Metrics<real>,
    armed: Set<Seq<char>>,
    textured: bool,
    k: real,
    key: KeyModel<real>,
) -> bool {
    let r = key.rect;
    let lit = key.action matches ActionModel::LatchModifier(name) && armed.contains(name);
    &&& piece.len() > 0
    &&& piece[0] matches DrawModel::KeyBox { rect, armed: a } && a == lit && rect.x == r.x * k
        + 2real * k && rect.y == r.y * k + 2real * k && (r.width >= 4real ==> rect.width == r.width
        * k - 4real * k) && (r.width <= 4real ==> rect.width == 0real) && (r.height >= 4real
        ==> rect.height == r.height * k - 4real * k) && (r.height <= 4real ==> rect.height
        == 0real)
    &&& match key.face {
        FaceModel::Text(text) => if textured && exists|i: int|
            0 <= i < text.len() && !crate::text::white_space(#[trigger] text[i]) {
            &&& piece.len() == 2
            &&& piece[1] matches DrawModel::Label { text: label, x, baseline, armed: a } && label
                == text && a == lit && x - piece[0]->KeyBox_rect.x == piece[0]->KeyBox_rect.x
                + piece[0]->KeyBox_rect.width - (x + (t.width)(text)) && baseline
                == piece[0]->KeyBox_rect.y + (t.baseline)(piece[0]->KeyBox_rect.height)
        } else {
            piece.len() == 1
        },
        FaceModel::Icon(icon) => if textured {
            &&& piece.len() == 2
            &&& piece[1] matches DrawModel::Icon { region, x, y, side, armed: a } && region == icon
                && a == lit && side + side == piece[0]->KeyBox_rect.height && x
                - piece[0]->KeyBox_rect.x == piece[0]->KeyBox_rect.x + piece[0]->KeyBox_rect.width
                - (x + side) && y - piece[0]->KeyBox_rect.y == piece[0]->KeyBox_rect.y
                + piece[0]->KeyBox_rect.height - (y + side)
        } else {
            piece.len() == 1
        },
    }
}

/// Whether `commands` is what is drawn of keys, one after the other.
pub open spec fn draws_all(
    commands: Seq<DrawModel<real>>,
    t: Metrics<real>,
    armed: Set<Seq<char>>,
    textured: bool,
    k: real,
    keys: Seq<KeyModel<real>>,
    pieces: Seq<Seq<DrawModel<real>>>,
) -> bool {
    &&& pieces.len() == keys.len()
    &&& commands == crate::layout::flat(pieces)
    &&& forall|i: int|
        0 <= i < keys.len() ==> draws(#[trigger] pieces[i], t, armed, textured, k, keys[i])
}

proof fn lemma_draws(
    t: Metrics<real>,
    armed: Set<Seq<char>>,
    textured: bool,
    k: real,
    key: KeyModel<real>,
)
    requires
        k >= 0real,
    ensures
        draws(
            crate::render::key_drawing(crate::flow::exact(), t, armed, textured, k, key),
            t,
            armed,
            textured,
            k,
            key,
        ),
{
    let m = crate::flow::exact();
    let b = crate::render::key_box(m, key.rect, k);
    lemma_inset_side(key.rect.width, k);
    lemma_inset_side(key.rect.height, k);
    match key.face {
        FaceModel::Text(text) => {
            crate::flow::lemma_halves(b.width - (t.width)(text));
            if crate::text::blank(text) {
                assert(!exists|i: int|
                    0 <= i < text.len() && !crate::text::white_space(#[trigger] text[i]));
            } else {
                let i = choose|i: int|
                    0 <= i < text.len() && !crate::text::white_space(#[trigger] text[i]);
                assert(!crate::text::white_space(text[i]));
            }
        },
        FaceModel::Icon(_) => {
            let side = crate::render::icon_side(m, b.height);
            crate::flow::lemma_halves(1real);
            let half = (m.over)((m.from_u32)(1), (m.from_u32)(2));
            assert((1u32 as real) == 1real);
            assert(half + half == 1real);
            let h = b.height;
            assert(h * half + h * half == h) by (nonlinear_arith)
                requires
                    half + half == 1real,
            ;
            crate::flow::lemma_halves(b.width - side);
            crate::flow::lemma_halves(b.height - side);
        },
    }
}

proof fn lemma_inset_side(size: real, k: real)
    requires
        k >= 0real,
    ensures
        size >= 4real ==> size * k - 2real * (2real * k) >= 0real,
        size <= 4real ==> size * k - 2real * (2real * k) <= 0real,
        2real * (2real * k) == 4real * k,
{
    assert(size >= 4real ==> size * k >= 4real * k) by (nonlinear_arith)
        requires
            k >= 0real,
    ;
    assert(size <= 4real ==> size * k <= 4real * k) by (nonlinear_arith)
        requires
            k >= 0real,
    ;
    assert(2real * (2real * k) == 4real * k) by (nonlinear_arith);
}

proof fn lemma_keys_drawing(
    t: Metrics<real>,
    armed: Set<Seq<char>>,
    textured: bool,
    k: real,
    keys: Seq<KeyModel<real>>,
) -> (pieces: Seq<Seq<DrawModel<real>>>)
    requires
        k >= 0real,
    ensures
        draws_all(
            crate::render::keys_drawing(crate::flow::exact(), t, armed, textured, k, keys),
            t,
            armed,
            textured,
            k,
            keys,
            pieces,
        ),
    decreases keys.len(),
{
    let m = crate::flow::exact();
    if keys.len() == 0 {
        Seq::empty()
    } else {
        let rest = keys.drop_last();
        let before = lemma_keys_drawing(t, armed, textured, k, rest);
        let piece = crate::render::key_drawing(m, t, armed, textured, k, keys.last());
        lemma_draws(t, armed, textured, k, keys.last());
        let pieces = before.push(piece);
        assert(pieces.drop_last() =~= before);
        assert forall|i: int| 0 <= i < keys.len() implies draws(
            #[trigger] pieces[i],
            t,
            armed,
            textured,
            k,
            keys[i],
        ) by {
            if i < rest.len() {
                assert(pieces[i] == before[i] && rest[i] == keys[i]);
            }
        }
        pieces
    }
}

/// A view is drawn key by key, each key once and in order, at the scale that makes the view,
/// `wide` layout units wide, exactly as wide as the buffer.
pub proof fn lemma_view_is_drawn_key_by_key(
    t: Metrics<real>,
    armed: Set<Seq<char>>,
    textured: bool,
    buffer_w: real,
    view: ViewModel<real>,
    commands: Seq<DrawModel<real>>,
    wide: real,
) -> (pieces: Seq<Seq<DrawModel<real>>>)
    requires
        commands == crate::render::view_drawing(
            crate::flow::exact(),
            t,
            armed,
            textured,
            buffer_w,
            view,
        ),
        buffer_w >= 0real,
        spans(view.all_keys(), wide),
    ensures
        draws_all(commands, t, armed, textured, buffer_w / wide, view.all_keys(), pieces),
{
    crate::laws::lemma_width_is_where_keys_end(view, wide);
    let k = buffer_w / wide;
    assert(k >= 0real) by (nonlinear_arith)
        requires
            buffer_w >= 0real,
            wide > 0real,
            k == buffer_w / wide,
    ;
    lemma_keys_drawing(t, armed, textured, k, view.all_keys())
}

/// A view without width draws nothing.
pub proof fn lemma_view_without_width_draws_nothing(
    t: Metrics<real>,
    armed: Set<Seq<char>>,
    textured: bool,
    buffer_w: real,
    view: ViewModel<real>,
)
    requires
        has_no_width(view.all_keys()),
    ensures
        crate::render::view_drawing(
            crate::flow::exact(),
            t,
            armed,
            textured,
            buffer_w,
            view,
        ).len() == 0,
{
    crate::laws::lemma_width_of_no_keys(view);
}

/// The boxes among what is drawn.
pub open spec fn boxes(commands: Seq<DrawModel<real>>) -> Seq<DrawModel<real>> {
    commands.filter(|c: DrawModel<real>| c is KeyBox)
}

proof fn lemma_boxes_of_flat(
    t: Metrics<real>,
    armed: Set<Seq<char>>,
    textured: bool,
    k: real,
    keys: Seq<KeyModel<real>>,
    pieces: Seq<Seq<DrawModel<real>>>,
)
    requires
        pieces.len() == keys.len(),
        forall|i: int|
            0 <= i < keys.len() ==> draws(#[trigger] pieces[i], t, armed, textured, k, keys[i]),
    ensures
        boxes(crate::layout::flat(pieces)).len() == keys.len(),
        forall|i: int|
            0 <= i < keys.len() ==> #[trigger] boxes(crate::layout::flat(pieces))[i]
                == pieces[i][0],
    decreases keys.len(),
{
    let is_box = |c: DrawModel<real>| c is KeyBox;
    reveal(Seq::filter);
    if keys.len() > 0 {
        let before = pieces.drop_last();
        let rest = keys.drop_last();
        assert forall|i: int| 0 <= i < rest.len() implies draws(
            #[trigger] before[i],
            t,
            armed,
            textured,
            k,
            rest[i],
        ) by {
            assert(before[i] == pieces[i] && rest[i] == keys[i]);
        }
        lemma_boxes_of_flat(t, armed, textured, k, rest, before);
        let last = pieces.last();
        assert(draws(pieces[keys.len() - 1], t, armed, textured, k, keys[keys.len() - 1]));
        let head = crate::layout::flat(before);
        let one = head + seq![last[0]];
        assert(one.drop_last() =~= head);
        assert(one.last() == last[0]);
        assert(boxes(one) =~= boxes(head).push(last[0]));
        if last.len() == 2 {
            assert((head + last).drop_last() =~= one);
            assert(!is_box((head + last).last()));
            assert(boxes(head + last) =~= boxes(one));
        } else {
            assert(head + last =~= one);
        }
        assert forall|i: int| 0 <= i < keys.len() implies #[trigger] boxes(
            crate::layout::flat(pieces),
        )[i] == pieces[i][0] by {
            if i < rest.len() {
                assert(boxes(crate::layout::flat(before))[i] == before[i][0]);
            }
        }
    }
}

/// Of a view of positive width the boxes that are drawn are one for each key, in order: the
/// key's rectangle times the width of the buffer over that of the view, drawn in by two layout
/// units at that scale on every side. A box of a key that begins right of 0 lies within the
/// width of the buffer.
pub proof fn lemma_each_key_has_its_box(
    t: Metrics<real>,
    armed: Set<Seq<char>>,
    textured: bool,
    buffer_w: real,
    view: ViewModel<real>,
    commands: Seq<DrawModel<real>>,
    wide: real,
    i: int,
)
    requires
        commands == crate::render::view_drawing(
            crate::flow::exact(),
            t,
            armed,
            textured,
            buffer_w,
            view,
        ),
        buffer_w >= 0real,
        spans(view.all_keys(), wide),
        0 <= i < view.all_keys().len(),
        view.all_keys()[i].rect.width >= 4real,
        view.all_keys()[i].rect.height >= 4real,
    ensures
        boxes(commands).len() == view.all_keys().len(),
        ({
            let r = view.all_keys()[i].rect;
            let k = buffer_w / wide;
            &&& boxes(commands)[i] matches DrawModel::KeyBox { rect, .. } && rect == (Rect {
                x: r.x * k + 2real * k,
                y: r.y * k + 2real * k,
                width: r.width * k - 4real * k,
                height: r.height * k - 4real * k,
            }) && rect.x + rect.width <= buffer_w && (r.x >= 0real ==> rect.x >= 0real)
        }),
{
    let keys = view.all_keys();
    let pieces = lemma_view_is_drawn_key_by_key(
        t,
        armed,
        textured,
        buffer_w,
        view,
        commands,
        wide,
    );
    let k = buffer_w / wide;
    lemma_boxes_of_flat(t, armed, textured, k, keys, pieces);
    assert(draws(pieces[i], t, armed, textured, k, keys[i]));
    assert(boxes(commands)[i] == pieces[i][0]);
    let r = keys[i].rect;
    assert(k >= 0real && wide * k == buffer_w) by (nonlinear_arith)
        requires
            buffer_w >= 0real,
            wide > 0real,
            k == buffer_w / wide,
    ;
    let end = r.x + r.width;
    assert(end <= wide);
    assert(r.x * k + r.width * k == end * k && end * k <= wide * k && (r.x >= 0real ==> r.x * k
        >= 0real)) by (nonlinear_arith)
        requires
            end == r.x + r.width,
            end <= wide,
            k >= 0real,
    ;
}

/// The box of each key, as it is drawn, lies within the touch area that taps go by, at the
/// output's scale.
pub proof fn lemma_each_box_is_within_its_touch_area(
    s: MechanixKeyboardState<real>,
    t: Metrics<real>,
    commands: Seq<DrawModel<real>>,
    wide: real,
    i: int,
)
    requires
        s.wf(),
        crate::laws::tapping::has_keys(s, wide),
        s.window->0.physical_width == s.window->0.logical_width * s.scale,
        commands == crate::render::view_drawing(
            crate::flow::exact(),
            t,
            s.virtual_keyboard_state.armed(),
            s.atlas_texture,
            s.window->0.physical_width as real,
            s.keymap->0.views@[s.current_view as int].model(),
        ),
        0 <= i < crate::laws::tapping::current_keys(s).len(),
        ({
            let key = crate::laws::tapping::current_keys(s)[i];
            key.touch_area == key.rect && key.rect.width >= 4real && key.rect.height >= 4real
        }),
    ensures
        ({
            let key = crate::laws::tapping::current_keys(s)[i];
            let f = (s.window->0.logical_width as real) / wide;
            let area = crate::laws::tapping::on_surface(key.touch_area, f);
            let g = s.scale as real;
            boxes(commands)[i] matches DrawModel::KeyBox { rect, .. } && area.x * g <= rect.x
                && rect.x + rect.width <= (area.x + area.width) * g && area.y * g <= rect.y
                && rect.y + rect.height <= (area.y + area.height) * g
        }),
{
    let r = crate::laws::tapping::current_keys(s)[i].rect;
    let w = s.window->0.logical_width as real;
    let g = s.scale as real;
    let buffer_w = s.window->0.physical_width as real;
    let f = w / wide;
    let k = buffer_w / wide;
    lemma_each_key_has_its_box(
        t,
        s.virtual_keyboard_state.armed(),
        s.atlas_texture,
        buffer_w,
        s.keymap->0.views@[s.current_view as int].model(),
        commands,
        wide,
        i,
    );
    assert(buffer_w == w * g) by {
        assert((s.window->0.logical_width * s.scale) as real == w * g) by (nonlinear_arith)
            requires
                w == s.window->0.logical_width as real,
                g == s.scale as real,
        ;
    }
    assert(k == f * g && k >= 0real) by (nonlinear_arith)
        requires
            wide > 0real,
            w >= 0real,
            g >= 0real,
            f == w / wide,
            k == buffer_w / wide,
            buffer_w == w * g,
    ;
    lemma_scaled_side(r.x, r.width, f, g, k);
    lemma_scaled_side(r.y, r.height, f, g, k);
}

proof fn lemma_scaled_side(from: real, size: real, f: real, g: real, k: real)
    requires
        k == f * g,
    ensures
        (from * f) * g == from * k,
        (from * f + size * f) * g == from * k + size * k,
{
    assert((from * f) * g == from * k && (from * f + size * f) * g == from * k + size * k)
        by (nonlinear_arith)
        requires
            k == f * g,
    ;
}

/// A frame is cleared first and ends with the Handle: the lowest 40 units of the surface, as
/// wide as it, at the scale of the buffer. Between them the current view is drawn, as wide as
/// the buffer, while the bar is shown; a hidden bar has nothing between them.
pub proof fn lemma_frame_is_the_keys_and_the_handle(
    s: MechanixKeyboardState<real>,
    t: Metrics<real>,
    commands: Seq<DrawModel<real>>,
)
    requires
        commands == s.frame_drawing(crate::flow::exact(), t),
        s.window is Some,
        s.window->0.logical_width != 0,
        s.window->0.logical_height != 0,
    ensures
        ({
            let window = s.window->0;
            let wide = window.physical_width as real;
            let k = wide / (window.logical_width as real);
            let n = commands.len() as int;
            &&& n >= 2
            &&& commands[0] is Clear
            &&& commands[n - 1] matches DrawModel::Handle { rect } && rect.x == 0real && rect.width
                == wide && rect.height == 40real * k && rect.y == (window.logical_height as real
                - 40real) * k
            &&& !window.visible ==> n == 2
            &&& window.visible && s.keymap is Some && s.current_view < s.keymap->0.views@.len()
                ==> commands.subrange(1, n - 1) == crate::render::view_drawing(
                crate::flow::exact(),
                t,
                s.virtual_keyboard_state.armed(),
                s.atlas_texture,
                wide,
                s.keymap->0.views@[s.current_view as int].model(),
            )
        }),
{
    let window = s.window->0;
    let wide = window.physical_width as real;
    let w = window.logical_width as real;
    let k = wide / w;
    assert(w * k == wide && 0real * k == 0real) by (nonlinear_arith)
        requires
            w > 0real,
            k == wide / w,
    ;
    let n = commands.len() as int;
    if window.visible && s.keymap is Some && s.current_view < s.keymap->0.views@.len() {
        assert(commands.subrange(1, n - 1) =~= crate::render::view_drawing(
            crate::flow::exact(),
            t,
            s.virtual_keyboard_state.armed(),
            s.atlas_texture,
            wide,
            s.keymap->0.views@[s.current_view as int].model(),
        ));
    }
}

/// A frame is drawn into the back buffer where that is released, is put off where it is not,
/// and is left where there are no buffers.
pub proof fn lemma_frame_goes_to_the_back_buffer<N>(s: MechanixKeyboardState<N>)
    ensures
        s.window matches Some(window) ==> (window.slots matches Some(slots) ==> (
        slots@[window.back as int].released ==> s.render_step() == (
        crate::render::RenderStep::Draw {
            slot: window.back,
            logical_width: window.logical_width,
            logical_height: window.logical_height,
        }))),
        s.window matches Some(window) ==> (window.slots matches Some(slots) ==> (
        !slots@[window.back as int].released ==> s.render_step() is Defer)),
        s.window is None || s.window->0.slots is None ==> s.render_step() is Skip,
{
}

/// A release marks the buffers of its id as released, and no others.
pub proof fn lemma_release_marks_its_buffer<N>(slots: Seq<Slot>, id: u64, i: int)
    requires
        0 <= i < slots.len(),
    ensures
        ({
            let after = MechanixKeyboardState::<N>::with_released(slots, id);
            &&& after.len() == slots.len()
            &&& after[i].buffer_id == slots[i].buffer_id
            &&& slots[i].buffer_id == id ==> after[i].released
            &&& slots[i].buffer_id != id ==> after[i].released == slots[i].released
        }),
{
}

} // verus!
