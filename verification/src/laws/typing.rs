//! What is typed: which keystrokes, in which order, with which modifiers.

use vstd::prelude::*;

use crate::layout::ActionModel;
use crate::virtual_keyboard::{KeyRequest, KeyTable, Keystroke, VirtualKeyboardState};

verus! {

/// On a ready keyboard the keystrokes of a list of keysyms are as many as its keysyms that
/// the keymap has, and each has the keycode of its keysym: the n-th keystroke that of the
/// n-th such keysym. The first holds what is armed besides its own modifiers, and the others
/// hold their own.
pub proof fn lemma_each_keysym_has_its_keystroke(keyboard: VirtualKeyboardState, keysyms: Seq<u32>)
    ensures
        ({
            let typed = keysyms.filter(|k: u32| keyboard.keycodes@.contains_key(k));
            let strokes = keyboard.strokes_for(true, keysyms);
            &&& strokes.len() == typed.len()
            &&& forall|n: int|
                0 <= n < strokes.len() ==> (#[trigger] strokes[n]).code
                    == keyboard.keycodes@[typed[n]].code
            &&& strokes.len() > 0 ==> strokes[0].mods == keyboard.keycodes@[typed[0]].mods
                | crate::virtual_keyboard::mask_of(
                crate::text::texts(keyboard.latched@),
                keyboard.mod_masks@,
            )
            &&& forall|n: int|
                1 <= n < strokes.len() ==> (#[trigger] strokes[n]).mods
                    == keyboard.keycodes@[typed[n]].mods
        }),
    decreases keysyms.len(),
{
    let has = |k: u32| keyboard.keycodes@.contains_key(k);
    reveal(Seq::filter);
    if keysyms.len() > 0 {
        lemma_each_keysym_has_its_keystroke(keyboard, keysyms.drop_last());
        let rest = keysyms.drop_last().filter(has);
        if has(keysyms.last()) {
            assert(keysyms.filter(has) =~= rest.push(keysyms.last()));
        } else {
            assert(keysyms.filter(has) =~= rest);
        }
    }
}

/// A keyboard that is not ready types nothing.
pub proof fn lemma_nothing_is_typed_unready(keyboard: VirtualKeyboardState, keysyms: Seq<u32>)
    ensures
        keyboard.strokes_for(false, keysyms).len() == 0,
    decreases keysyms.len(),
{
    if keysyms.len() > 0 {
        lemma_nothing_is_typed_unready(keyboard, keysyms.drop_last());
    }
}

/// Where the keymap has all characters of a text, there is one keystroke for each of them,
/// in order, repeated ones included; and where nothing is armed, each is the keymap's own.
pub proof fn lemma_text_is_typed_character_by_character(
    keyboard: VirtualKeyboardState,
    text: Seq<char>,
)
    requires
        forall|i: int|
            0 <= i < text.len() ==> keyboard.keycodes@.contains_key(
                crate::keysyms::keysym_of_char(#[trigger] text[i]),
            ),
    ensures
        ({
            let strokes = keyboard.strokes_for(
                true,
                crate::virtual_keyboard::keysyms_of(ActionModel::EmitText(text)),
            );
            &&& strokes.len() == text.len()
            &&& forall|i: int|
                0 <= i < text.len() ==> (#[trigger] strokes[i]).code
                    == keyboard.keycodes@[crate::keysyms::keysym_of_char(text[i])].code
            &&& keyboard.latched@.len() == 0 ==> forall|i: int|
                0 <= i < text.len() ==> #[trigger] strokes[i]
                    == keyboard.keycodes@[crate::keysyms::keysym_of_char(text[i])]
        }),
{
    let keysyms = Seq::new(text.len(), |i: int| crate::keysyms::keysym_of_char(text[i]));
    assert(keysyms =~= crate::virtual_keyboard::keysyms_of(ActionModel::EmitText(text)));
    let has = |k: u32| keyboard.keycodes@.contains_key(k);
    lemma_each_keysym_has_its_keystroke(keyboard, keysyms);
    assert forall|i: int| 0 <= i < keysyms.len() implies has(#[trigger] keysyms[i]) by {
        assert(keyboard.keycodes@.contains_key(crate::keysyms::keysym_of_char(text[i])));
    }
    lemma_filter_keeps_all(keysyms, has);
    if keyboard.latched@.len() == 0 && text.len() > 0 {
        let own = keyboard.keycodes@[keysyms[0]].mods;
        assert(own | 0u32 == own) by (bit_vector);
    }
}

proof fn lemma_filter_keeps_all(s: Seq<u32>, has: spec_fn(u32) -> bool)
    requires
        forall|i: int| 0 <= i < s.len() ==> has(#[trigger] s[i]),
    ensures
        s.filter(has) == s,
    decreases s.len(),
{
    reveal(Seq::filter);
    if s.len() > 0 {
        let rest = s.drop_last();
        assert forall|i: int| 0 <= i < rest.len() implies has(#[trigger] rest[i]) by {
            assert(rest[i] == s[i]);
        }
        lemma_filter_keeps_all(rest, has);
        assert(has(s[s.len() - 1]));
        assert(s.filter(has) =~= rest.push(s.last()));
    }
    assert(s.filter(has) =~= s);
}

/// A keysym is typed by one keystroke, or none; no other action but a text types anything.
pub proof fn lemma_only_keysyms_and_texts_type(
    keyboard: VirtualKeyboardState,
    action: ActionModel,
    ready: bool,
)
    ensures
        ({
            let strokes = keyboard.strokes_for(
                ready,
                crate::virtual_keyboard::keysyms_of(action),
            );
            &&& action matches ActionModel::EmitKeysym(keysym) ==> (if ready
                && keyboard.keycodes@.contains_key(keysym) {
                strokes.len() == 1 && strokes[0].code == keyboard.keycodes@[keysym].code
            } else {
                strokes.len() == 0
            })
            &&& !(action is EmitKeysym) && !(action is EmitText) ==> strokes.len() == 0
        }),
{
    if let ActionModel::EmitKeysym(keysym) = action {
        let keysyms = crate::virtual_keyboard::keysyms_of(action);
        assert(keysyms =~= seq![keysym]);
        assert(keysyms.drop_last() =~= Seq::empty());
        reveal_with_fuel(VirtualKeyboardState::strokes_for, 2);
    }
}

/// A keystroke holds no modifier but its own and those that are armed: its mask is within
/// every mask that holds them.
pub proof fn lemma_keystroke_holds_no_other_modifier(
    keyboard: VirtualKeyboardState,
    keysym: u32,
    bound: u32,
)
    requires
        keyboard.keycodes@.contains_key(keysym),
        keyboard.keycodes@[keysym].mods | bound == bound,
        forall|i: int|
            0 <= i < keyboard.latched@.len() && keyboard.mod_masks@.contains_key(
                #[trigger] keyboard.latched@[i]@,
            ) ==> keyboard.mod_masks@[keyboard.latched@[i]@] | bound == bound,
    ensures
        keyboard.stroke_for(true, keysym) matches Some(stroke) && stroke.mods | bound == bound
            && stroke.code == keyboard.keycodes@[keysym].code,
{
    let names = keyboard.latched_names();
    let own = keyboard.keycodes@[keysym].mods;
    let mask = keyboard.armed_mask();
    assert forall|i: int|
        0 <= i < names.len() && keyboard.mod_masks@.contains_key(
            #[trigger] names[i],
        ) implies crate::virtual_keyboard::within(keyboard.mod_masks@[names[i]], bound) by {
        assert(names[i] == keyboard.latched@[i]@);
    }
    crate::virtual_keyboard::lemma_mask_holds_no_more(names, keyboard.mod_masks@, bound);
    assert((own | mask) | bound == bound) by (bit_vector)
        requires
            own | bound == bound,
            mask | bound == bound,
    ;
}

/// Tapping a latch key changes the latch of its modifier and of no other: armed becomes idle
/// and idle armed, where the modifier has a mask; else nothing changes.
pub proof fn lemma_latch_key_flips_one_latch(
    armed: Set<Seq<char>>,
    masks: Map<Seq<char>, u32>,
    name: Seq<char>,
    other: Seq<char>,
)
    ensures
        crate::virtual_keyboard::toggled(armed, masks, name).contains(name) == (if masks.contains_key(
            name,
        ) {
            !armed.contains(name)
        } else {
            armed.contains(name)
        }),
        other != name ==> crate::virtual_keyboard::toggled(armed, masks, name).contains(other)
            == armed.contains(other),
{
}

/// A keysym that a key of a keymap has at the base level is typed by the lowest such key,
/// without modifiers. The code of a key is its keycode less 8.
pub proof fn lemma_base_keysym_is_on_its_lowest_key(table: KeyTable, keysym: u32, i: int)
    requires
        table.scannable(),
        keysym != 0,
        0 <= i < table.keys@.len(),
        table.min_keycode + i >= 8,
        table.keys@[i].base@.len() > 0 && table.keys@[i].base@[0] == keysym,
        forall|j: int|
            0 <= j < i && table.min_keycode + j >= 8 && (#[trigger] table.keys@[j]).base@.len() > 0
                ==> table.keys@[j].base@[0] != keysym,
    ensures
        table.stroke_of(keysym) matches Some(stroke) && stroke.code + 8 == table.min_keycode + i
            && stroke.mods == 0,
{
    let n = table.keys@.len();
    table.lemma_first_key(false, keysym, n);
    assert(table.carries(false, keysym, i));
    let first = table.first_key(false, keysym, n)->0;
    if first < i {
        assert(table.carries(false, keysym, first));
        assert(table.keys@[first].base@[0] == keysym);
    }
    assert(first == i);
}

/// A keysym that no key has at the base level is typed by the lowest key that has it at the
/// shifted level, with Shift.
pub proof fn lemma_shifted_keysym_is_on_its_lowest_key(table: KeyTable, keysym: u32, i: int)
    requires
        table.scannable(),
        keysym != 0,
        0 <= i < table.keys@.len(),
        table.min_keycode + i >= 8,
        table.keys@[i].shifted@.len() > 0 && table.keys@[i].shifted@[0] == keysym,
        forall|j: int|
            0 <= j < table.keys@.len() && table.min_keycode + j >= 8 && (
            #[trigger] table.keys@[j]).base@.len() > 0 ==> table.keys@[j].base@[0] != keysym,
        forall|j: int|
            0 <= j < i && table.min_keycode + j >= 8 && (
            #[trigger] table.keys@[j]).shifted@.len() > 0 ==> table.keys@[j].shifted@[0] != keysym,
    ensures
        table.stroke_of(keysym) matches Some(stroke) && stroke.code + 8 == table.min_keycode + i
            && stroke.mods == 1u32 << table.shift_index,
{
    let n = table.keys@.len();
    table.lemma_first_key(false, keysym, n);
    table.lemma_first_key(true, keysym, n);
    assert(table.carries(true, keysym, i));
    assert forall|j: int| 0 <= j < n implies !#[trigger] table.carries(false, keysym, j) by {
        assert(table.keys@[j].base@.len() > 0 && table.min_keycode + j >= 8
            ==> table.keys@[j].base@[0] != keysym);
    }
    let first = table.first_key(true, keysym, n)->0;
    if first < i {
        assert(table.carries(true, keysym, first));
        assert(table.keys@[first].shifted@[0] == keysym);
    }
    assert(first == i);
}

/// A keysym that no key has at either level is not typed, nor is the absent keysym.
pub proof fn lemma_absent_keysym_is_not_typed(table: KeyTable, keysym: u32)
    requires
        keysym == 0 || forall|j: int|
            0 <= j < table.keys@.len() && table.min_keycode + j >= 8 ==> ((
            #[trigger] table.keys@[j]).base@.len() > 0 ==> table.keys@[j].base@[0] != keysym) && (
            table.keys@[j].shifted@.len() > 0 ==> table.keys@[j].shifted@[0] != keysym),
    ensures
        table.stroke_of(keysym) is None,
{
    if keysym != 0 {
        let n = table.keys@.len();
        table.lemma_first_key(false, keysym, n);
        table.lemma_first_key(true, keysym, n);
        assert forall|j: int| 0 <= j < n implies !#[trigger] table.carries(false, keysym, j)
            && !table.carries(true, keysym, j) by {
            assert(table.keys@[j].base@.len() >= 0);
        }
        assert forall|j: int| 0 <= j < n implies !#[trigger] table.carries(true, keysym, j) by {
            assert(!table.carries(false, keysym, j));
        }
    }
}

/// A keystroke presses its key once and releases it once, at the given time, and says which
/// modifiers are held before and after it exactly where it has any.
pub proof fn lemma_keystroke_is_one_press_and_release(stroke: Keystroke, time: u32)
    ensures
        ({
            let requests = crate::virtual_keyboard::requests_of(stroke, time);
            let at = if stroke.mods != 0 { 1int } else { 0int };
            &&& requests.len() == 2 + 2 * at
            &&& requests[at] == (KeyRequest::Key { time, code: stroke.code, pressed: true })
            &&& requests[at + 1] == (KeyRequest::Key { time, code: stroke.code, pressed: false })
            &&& stroke.mods != 0 ==> requests[0] == (KeyRequest::Modifiers {
                depressed: stroke.mods,
            }) && requests[3] == (KeyRequest::Modifiers { depressed: 0 })
        }),
{
}

/// A shared text is the text, byte for byte, and one NUL behind it.
pub proof fn lemma_shared_text_ends_in_one_nul(text: Seq<u8>, i: int)
    ensures
        crate::virtual_keyboard::image_of(text).len() == text.len() + 1,
        0 <= i < text.len() ==> crate::virtual_keyboard::image_of(text)[i] == text[i],
        crate::virtual_keyboard::image_of(text)[text.len() as int] == 0,
{
}

/// Time stamps count milliseconds, and begin again after 32 bits of them: each is one more than
/// the one before it, or 0 behind the largest.
pub proof fn lemma_time_stamps_count_and_wrap(elapsed_ms: int)
    requires
        elapsed_ms >= 0,
    ensures
        crate::virtual_keyboard::stamp_of(0) == 0,
        ({
            let now = crate::virtual_keyboard::stamp_of(elapsed_ms);
            let next = crate::virtual_keyboard::stamp_of(elapsed_ms + 1);
            if now == u32::MAX {
                next == 0
            } else {
                next == now + 1
            }
        }),
{
}

} // verus!
