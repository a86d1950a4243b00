//! What the keys of a layout show and do, by what the layout says of their buttons.

use vstd::prelude::*;

use crate::flow::Outline;
use crate::layout::{ActionModel, ActionSpec, Button, FaceModel, Layout, SpriteRegion};
use crate::scalar::Arithmetic;

verus! {

/// A button that names a keysym types it, whatever else is said of it. One whose keysym is
/// unknown does nothing.
pub proof fn lemma_named_keysym_is_typed(token: Seq<char>, b: Button)
    requires
        b.keysym is Some,
    ensures
        b.keysym->0.raw != 0 ==> crate::layout::action_of(token, Some(&b))
            == ActionModel::EmitKeysym(b.keysym->0.raw),
        b.keysym->0.raw == 0 ==> crate::layout::action_of(token, Some(&b))
            == ActionModel::Unhandled(token),
{
}

/// A button without a keysym does the action that it has, whatever else is said of it.
pub proof fn lemma_said_action_is_done(token: Seq<char>, b: Button)
    requires
        b.keysym is None,
        b.action is Some,
    ensures
        b.action->0 matches ActionSpec::SetView { set_view } ==> crate::layout::action_of(
            token,
            Some(&b),
        ) == ActionModel::SetView(set_view@),
        b.action->0 matches ActionSpec::Locking { locking } ==> crate::layout::action_of(
            token,
            Some(&b),
        ) == (ActionModel::ToggleView { lock: locking.lock_view@, unlock: locking.unlock_view@ }),
        b.action->0 matches ActionSpec::Named(name) ==> (name@ == "erase"@
            ==> crate::layout::action_of(token, Some(&b)) == ActionModel::EmitKeysym(0xff08)),
        b.action->0 matches ActionSpec::Named(name) ==> (name@ != "erase"@
            ==> crate::layout::action_of(token, Some(&b)) == ActionModel::Unhandled(name@)),
        b.action->0 is Other ==> crate::layout::action_of(token, Some(&b))
            == ActionModel::Unhandled(token),
{
}

/// A button with a modifier, and neither keysym nor action, latches Control; any other
/// modifier does nothing.
pub proof fn lemma_control_is_latched(token: Seq<char>, b: Button)
    requires
        b.keysym is None,
        b.action is None,
        b.modifier is Some,
    ensures
        (b.modifier->0)@ == "Control"@ ==> crate::layout::action_of(token, Some(&b))
            == ActionModel::LatchModifier("Control"@),
        (b.modifier->0)@ != "Control"@ ==> crate::layout::action_of(token, Some(&b))
            == ActionModel::Unhandled(token),
{
}

/// A button with a text, and neither keysym, action nor modifier, types exactly that text,
/// whatever its length, its label and its token.
pub proof fn lemma_text_is_typed_whole(token: Seq<char>, b: Button, text: Seq<char>)
    requires
        b.keysym is None,
        b.action is None,
        b.modifier is None,
        b.text matches Some(t) && t@ == text,
    ensures
        crate::layout::action_of(token, Some(&b)) == ActionModel::EmitText(text),
        crate::virtual_keyboard::keysyms_of(crate::layout::action_of(token, Some(&b))).len()
            == text.len(),
        forall|i: int|
            0 <= i < text.len() ==> #[trigger] crate::virtual_keyboard::keysyms_of(
                crate::layout::action_of(token, Some(&b)),
            )[i] == crate::keysyms::keysym_of_char(text[i]),
{
}

/// A button of which at most its looks are said types its label where that is one character,
/// else its token where that is one; characters that have a keysym.
pub proof fn lemma_one_character_is_typed(token: Seq<char>, b: Button)
    requires
        b.keysym is None,
        b.action is None,
        b.modifier is None,
        b.text is None,
    ensures
        b.label matches Some(label) ==> (label@.len() == 1 && crate::keysyms::keysym_of_char(
            label@[0],
        ) != 0 ==> crate::layout::action_of(token, Some(&b)) == ActionModel::EmitKeysym(
            crate::keysyms::keysym_of_char(label@[0]),
        )),
        b.label is None || (b.label->0)@.len() != 1 || crate::keysyms::keysym_of_char(
            (b.label->0)@[0],
        ) == 0 ==> crate::layout::action_of(token, Some(&b)) == crate::layout::action_of(
            token,
            None,
        ),
{
}

/// A token without a button types its character, where it is one that has a keysym; else it
/// does nothing.
pub proof fn lemma_bare_token_is_typed(token: Seq<char>)
    ensures
        token.len() == 1 && crate::keysyms::keysym_of_char(token[0]) != 0
            ==> crate::layout::action_of(token, None) == ActionModel::EmitKeysym(
            crate::keysyms::keysym_of_char(token[0]),
        ),
        token.len() != 1 || crate::keysyms::keysym_of_char(token[0]) == 0
            ==> crate::layout::action_of(token, None) == ActionModel::Unhandled(token),
{
}

/// What a key shows: an icon before a label, a label before the token, and nothing where the
/// icon is unknown.
pub proof fn lemma_face_is_icon_or_label_or_token<N>(
    token: Seq<char>,
    b: Button,
    icons: Map<Seq<char>, SpriteRegion<N>>,
)
    ensures
        b.icon matches Some(icon) ==> (icons.contains_key(icon@) ==> crate::layout::face_of(
            token,
            Some(&b),
            icons,
        ) == FaceModel::Icon(icons[icon@])),
        b.icon matches Some(icon) ==> (!icons.contains_key(icon@) ==> crate::layout::face_of(
            token,
            Some(&b),
            icons,
        ) == FaceModel::<N>::Text(Seq::empty())),
        b.icon is None ==> (b.label matches Some(label) ==> crate::layout::face_of(
            token,
            Some(&b),
            icons,
        ) == FaceModel::<N>::Text(label@)),
        b.icon is None && b.label is None ==> crate::layout::face_of(token, Some(&b), icons)
            == FaceModel::<N>::Text(token),
        crate::layout::face_of(token, None, icons) == FaceModel::<N>::Text(token),
{
}

/// How large a key is: as its named outline, where that is defined; else as the `default`
/// outline, where that is; else 50 by 50.
pub proof fn lemma_size_is_named_or_default<N>(
    m: Arithmetic<N>,
    outlines: Map<Seq<char>, Outline<N>>,
    b: Button,
)
    ensures
        b.outline matches Some(name) ==> (outlines.contains_key(name@)
            ==> crate::layout::outline_of(m, outlines, Some(&b)) == outlines[name@]),
        b.outline matches Some(name) ==> (!outlines.contains_key(name@)
            ==> crate::layout::outline_of(m, outlines, Some(&b)) == crate::layout::outline_of(
            m,
            outlines,
            None,
        )),
        b.outline is None ==> crate::layout::outline_of(m, outlines, Some(&b))
            == crate::layout::outline_of(m, outlines, None),
        outlines.contains_key("default"@) ==> crate::layout::outline_of(m, outlines, None)
            == outlines["default"@],
        !outlines.contains_key("default"@) ==> crate::layout::outline_of(m, outlines, None) == (
        Outline { width: (m.from_u32)(50), height: (m.from_u32)(50) }),
{
}

/// Every word of every row of a view is a key of it, in its place, that shows and does what
/// the layout says of the button of that name, or what the word says by itself where the
/// layout has no such button.
pub proof fn lemma_every_word_is_a_key<N>(
    layout: Layout<N>,
    m: Arithmetic<N>,
    icons: Map<Seq<char>, SpriteRegion<N>>,
    name: Seq<char>,
    rows: Seq<Seq<char>>,
    i: int,
    j: int,
)
    requires
        0 <= i < rows.len(),
        0 <= j < crate::text::words(rows[i]).len(),
    ensures
        ({
            let view = layout.view_of(m, icons, name, rows);
            let word = crate::text::words(rows[i])[j];
            let button = layout.buttons@[word];
            &&& view.rows.len() == rows.len()
            &&& view.rows[i].len() == crate::text::words(rows[i]).len()
            &&& layout.buttons@.contains_key(word) ==> view.rows[i][j].action
                == crate::layout::action_of(word, Some(&button)) && view.rows[i][j].face
                == crate::layout::face_of(word, Some(&button), icons)
            &&& !layout.buttons@.contains_key(word) ==> view.rows[i][j].action
                == crate::layout::action_of(word, None) && view.rows[i][j].face
                == crate::layout::face_of(word, None, icons)
        }),
{
}

/// Every view of a layout becomes a view of the keymap, in the order of the names, with all
/// of its rows.
pub proof fn lemma_every_view_is_in_the_keymap<N>(
    layout: Layout<N>,
    m: Arithmetic<N>,
    icons: Map<Seq<char>, SpriteRegion<N>>,
    rows: Seq<Seq<char>>,
    i: int,
)
    requires
        0 <= i < layout.views.entries().len(),
        rows.len() == layout.views.entries()[i].value@.len(),
        forall|k: int|
            0 <= k < rows.len() ==> #[trigger] rows[k] == layout.views.entries()[i].value@[k]@,
    ensures
        layout.keymap_of(m, icons).len() == layout.views.entries().len(),
        layout.keymap_of(m, icons)[i] == layout.view_of(
            m,
            icons,
            layout.views.entries()[i].name@,
            rows,
        ),
{
    assert(rows =~= crate::text::texts(layout.views.entries()[i].value@));
}

/// The words of a text are split at white space, and there alone: what stands left of a
/// white character is split by itself, and so is what stands right of it.
pub proof fn lemma_words_split_at_white_space(a: Seq<char>, c: char, b: Seq<char>)
    requires
        crate::text::white_space(c),
    ensures
        crate::text::words(a + seq![c] + b) == crate::text::words(a) + crate::text::words(b),
        crate::text::words(Seq::empty()) == Seq::<Seq<char>>::empty(),
    decreases a.len(),
{
    let all = a + seq![c] + b;
    if a.len() == 0 {
        assert(all.drop_first() =~= b);
        assert(crate::text::words(a) + crate::text::words(b) =~= crate::text::words(b));
    } else if crate::text::white_space(a[0]) {
        lemma_words_split_at_white_space(a.drop_first(), c, b);
        assert(all.drop_first() =~= a.drop_first() + seq![c] + b);
    } else {
        lemma_word_len_stops(a, c, b);
        crate::text::lemma_word_len(a);
        let n = crate::text::word_len(a) as int;
        assert(all.take(n) =~= a.take(n));
        assert(all.skip(n) =~= a.skip(n) + seq![c] + b);
        lemma_words_split_at_white_space(a.skip(n), c, b);
        assert(crate::text::words(all) =~= crate::text::words(a) + crate::text::words(b));
    }
}

proof fn lemma_word_len_stops(a: Seq<char>, c: char, b: Seq<char>)
    requires
        crate::text::white_space(c),
    ensures
        crate::text::word_len(a + seq![c] + b) == crate::text::word_len(a),
    decreases a.len(),
{
    if a.len() > 0 && !crate::text::white_space(a[0]) {
        lemma_word_len_stops(a.drop_first(), c, b);
        assert((a + seq![c] + b).drop_first() =~= a.drop_first() + seq![c] + b);
    }
}

/// Of two texts the one comes first that has the smaller code point where they first
/// differ, or that ends there.
pub proof fn lemma_text_order_is_by_first_difference(a: Seq<char>, b: Seq<char>, k: int)
    requires
        0 <= k < b.len(),
        k <= a.len(),
        a.take(k) == b.take(k),
        k < a.len() ==> a[k] != b[k],
    ensures
        crate::text::text_before(a, b) == (k == a.len() || (a[k] as int) < (b[k] as int)),
    decreases k,
{
    if k > 0 {
        assert(a[0] == a.take(k)[0]);
        assert(b[0] == b.take(k)[0]);
        assert(a.len() > 0 && b.len() > 0 && a[0] == b[0]);
        assert(k < a.len() ==> a.drop_first()[k - 1] == a[k]);
        assert(b.drop_first()[k - 1] == b[k]);
        assert(a.drop_first().take(k - 1) =~= a.take(k).drop_first());
        assert(b.drop_first().take(k - 1) =~= b.take(k).drop_first());
        lemma_text_order_is_by_first_difference(a.drop_first(), b.drop_first(), k - 1);
    }
}

} // verus!
