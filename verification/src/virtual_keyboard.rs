//! What a tapped key sends: keystrokes, the modifiers that they hold, and the
//! modifiers that are armed for the next of them.

use std::collections::HashMap;

use vstd::prelude::*;

use crate::keysyms::{keysym_from_char, NO_SYMBOL};
use crate::layout::{ActionModel, KeyAction};
use crate::names::NameMap;
use crate::state::MechanixKeyboardState;
use crate::text::{chars_of, same_text};

verus! {

/// One resolved keystroke: the evdev keycode to press plus the modifier mask to hold
/// while pressing it. A level-0 keysym gets `mods == 0`; a level-1 keysym (e.g. `Q`,
/// `exclam`) gets its physical key's keycode plus the Shift mask, so emission
/// reproduces the shifted keysym without any persistent modifier.
#[derive(Debug, Clone, Copy, PartialEq, Eq, Structural)]
pub struct Keystroke {
    pub code: u32,
    pub mods: u32,
}

/// The keysyms of one physical key in a compiled keymap, as its first layout has
/// them at the base and at the shifted level.
pub struct KeySyms {
    pub base: Vec<u32>,
    pub shifted: Vec<u32>,
}

/// What is read of a compiled keymap: the keysyms of its keys, from the lowest
/// keycode up, and the indices of two modifiers.
pub struct KeyTable {
    pub min_keycode: u32,
    pub keys: Vec<KeySyms>,
    pub shift_index: u32,
    pub control_index: u32,
}

/// How far xkb keycodes lie above evdev keycodes.
pub const EVDEV_OFFSET: u32 = 8;

impl KeyTable {
    /// Keycodes and the mask of Shift are numbers of 32 bits: enough to scan the keys.
    pub open spec fn scannable(&self) -> bool {
        &&& self.min_keycode + self.keys@.len() <= 0x1_0000_0000
        &&& self.shift_index < 32
    }

    /// The mask of Control is a number of 32 bits as well.
    pub open spec fn wf(&self) -> bool {
        &&& self.scannable()
        &&& self.control_index < 32
    }

    /// The keysyms of key `i` at a level: base or shifted.
    pub open spec fn syms(&self, shifted: bool, i: int) -> Seq<u32> {
        if shifted {
            self.keys@[i].shifted@
        } else {
            self.keys@[i].base@
        }
    }

    /// Whether key `i` can be sent and has `keysym` for its first keysym at a level.
    pub open spec fn carries(&self, shifted: bool, keysym: u32, i: int) -> bool {
        &&& self.min_keycode + i >= EVDEV_OFFSET
        &&& self.syms(shifted, i).len() > 0
        &&& self.syms(shifted, i)[0] == keysym
    }

    /// The lowest of the first `n` keys that carries `keysym` at a level.
    pub open spec fn first_key(&self, shifted: bool, keysym: u32, n: nat) -> Option<int>
        decreases n,
    {
        if n == 0 {
            None
        } else {
            match self.first_key(shifted, keysym, (n - 1) as nat) {
                Some(i) => Some(i),
                None => if self.carries(shifted, keysym, n - 1) {
                    Some(n - 1)
                } else {
                    None
                },
            }
        }
    }

    /// The keystroke of key `i` at a level.
    pub open spec fn stroke_at(&self, shifted: bool, i: int) -> Keystroke {
        Keystroke {
            code: (self.min_keycode + i - EVDEV_OFFSET) as u32,
            mods: if shifted {
                1u32 << self.shift_index
            } else {
                0
            },
        }
    }

    /// How `keysym` is typed: by the lowest key that has it at the base level, else by
    /// the lowest key that has it at the shifted level and with Shift held.
    pub open spec fn stroke_of(&self, keysym: u32) -> Option<Keystroke> {
        let n = self.keys@.len();
        if keysym == NO_SYMBOL {
            None
        } else {
            match self.first_key(false, keysym, n) {
                Some(i) => Some(self.stroke_at(false, i)),
                None => match self.first_key(true, keysym, n) {
                    Some(i) => Some(self.stroke_at(true, i)),
                    None => None,
                },
            }
        }
    }

    /// The first key that carries a keysym carries it, and no key below it does; there
    /// is none exactly when no key carries it.
    pub proof fn lemma_first_key(&self, shifted: bool, keysym: u32, n: nat)
        ensures
            self.first_key(shifted, keysym, n) matches Some(i) ==> 0 <= i < n && self.carries(
                shifted,
                keysym,
                i,
            ) && forall|j: int| 0 <= j < i ==> !#[trigger] self.carries(shifted, keysym, j),
            self.first_key(shifted, keysym, n) is None <==> forall|j: int|
                0 <= j < n ==> !#[trigger] self.carries(shifted, keysym, j),
        decreases n,
    {
        if n > 0 {
            self.lemma_first_key(shifted, keysym, (n - 1) as nat);
        }
    }

    /// A keysym that a key has at the base level takes no modifier, whatever other
    /// keys have it at the shifted level.
    pub proof fn lemma_fewest_modifiers_win(&self, keysym: u32, i: int)
        requires
            keysym != NO_SYMBOL,
            0 <= i < self.keys@.len(),
            self.carries(false, keysym, i),
        ensures
            self.stroke_of(keysym) matches Some(stroke) && stroke.mods == 0,
    {
        self.lemma_first_key(false, keysym, self.keys@.len());
    }

    /// A keysym that is on a key only when shifted is typed by the same physical key
    /// as the keysym under it, with Shift held; each must be the first key of its
    /// keysym.
    pub proof fn lemma_shifted_keysym_is_on_the_same_key(&self, base: u32, shifted: u32, i: int)
        requires
            self.scannable(),
            base != NO_SYMBOL,
            shifted != NO_SYMBOL,
            self.first_key(false, base, self.keys@.len()) == Some(i),
            self.first_key(false, shifted, self.keys@.len()) is None,
            self.first_key(true, shifted, self.keys@.len()) == Some(i),
        ensures
            self.stroke_of(base) matches Some(plain) && self.stroke_of(shifted) matches Some(held)
                && plain.code == held.code && plain.mods == 0 && held.mods != 0,
    {
        let index = self.shift_index;
        assert(1u32 << index != 0) by (bit_vector)
            requires
                index < 32,
        ;
    }
}

/// Build the `keysym → Keystroke` map from a keymap's base and shifted levels. A
/// base keysym stores an empty modifier mask; a shifted keysym stores the Shift mask,
/// so tapping it emits the shifted keysym. Levels are scanned low-to-high and what is
/// there stays, so the fewest-modifiers form wins for a keysym present at both.
pub fn scan_keycodes(table: &KeyTable) -> (map: HashMap<u32, Keystroke>)
    requires
        table.scannable(),
    ensures
        forall|keysym: u32| #[trigger]
            map@.contains_key(keysym) <==> table.stroke_of(keysym) is Some,
        forall|keysym: u32| #[trigger]
            map@.contains_key(keysym) ==> table.stroke_of(keysym) == Some(map@[keysym]),
{
    let shift: u32 = 1u32 << table.shift_index;
    let mut map: HashMap<u32, Keystroke> = HashMap::new();
    let mut i: usize = 0;
    while i < table.keys.len()
        invariant
            table.scannable(),
            i <= table.keys.len(),
            forall|keysym: u32| #[trigger]
                map@.contains_key(keysym) <==> keysym != NO_SYMBOL && table.first_key(
                    false,
                    keysym,
                    i as nat,
                ) is Some,
            forall|keysym: u32| #[trigger]
                map@.contains_key(keysym) ==> map@[keysym] == table.stroke_at(
                    false,
                    table.first_key(false, keysym, i as nat)->0,
                ),
        decreases table.keys.len() - i,
    {
        let syms = &table.keys[i].base;
        let keycode: u64 = table.min_keycode as u64 + i as u64;
        if keycode >= EVDEV_OFFSET as u64 && syms.len() > 0 {
            let keysym: u32 = syms[0];
            if keysym != NO_SYMBOL && !map.contains_key(&keysym) {
                map.insert(keysym, Keystroke { code: (keycode - EVDEV_OFFSET as u64) as u32, mods: 0 });
            }
        }
        i += 1;
    }
    i = 0;
    while i < table.keys.len()
        invariant
            table.scannable(),
            i <= table.keys.len(),
            shift == 1u32 << table.shift_index,
            forall|keysym: u32| #[trigger]
                map@.contains_key(keysym) <==> keysym != NO_SYMBOL && (table.first_key(
                    false,
                    keysym,
                    table.keys@.len(),
                ) is Some || table.first_key(true, keysym, i as nat) is Some),
            forall|keysym: u32| #[trigger]
                map@.contains_key(keysym) ==> map@[keysym] == match table.first_key(
                    false,
                    keysym,
                    table.keys@.len(),
                ) {
                    Some(k) => table.stroke_at(false, k),
                    None => table.stroke_at(true, table.first_key(true, keysym, i as nat)->0),
                },
        decreases table.keys.len() - i,
    {
        let syms = &table.keys[i].shifted;
        let keycode: u64 = table.min_keycode as u64 + i as u64;
        if keycode >= EVDEV_OFFSET as u64 && syms.len() > 0 {
            let keysym: u32 = syms[0];
            if keysym != NO_SYMBOL && !map.contains_key(&keysym) {
                map.insert(
                    keysym,
                    Keystroke { code: (keycode - EVDEV_OFFSET as u64) as u32, mods: shift },
                );
            }
        }
        i += 1;
    }
    map
}

/// The masks of a list of modifiers, combined; a modifier without a mask adds nothing.
pub open spec fn mask_of(names: Seq<Seq<char>>, masks: Map<Seq<char>, u32>) -> u32
    decreases names.len(),
{
    if names.len() == 0 {
        0
    } else if masks.contains_key(names.last()) {
        mask_of(names.drop_last(), masks) | masks[names.last()]
    } else {
        mask_of(names.drop_last(), masks)
    }
}

/// Whether every bit of `a` is a bit of `b`.
pub open spec fn within(a: u32, b: u32) -> bool {
    a | b == b
}

/// The combined mask holds the mask of each modifier in the list.
pub proof fn lemma_mask_holds_each(names: Seq<Seq<char>>, masks: Map<Seq<char>, u32>, i: int)
    requires
        0 <= i < names.len(),
        masks.contains_key(names[i]),
    ensures
        within(masks[names[i]], mask_of(names, masks)),
    decreases names.len(),
{
    let front = names.drop_last();
    let rest = mask_of(front, masks);
    let last = masks[names.last()];
    let one = masks[names[i]];
    if i < front.len() {
        lemma_mask_holds_each(front, masks, i);
        assert(one | (rest | last) == rest | last) by (bit_vector)
            requires
                one | rest == rest,
        ;
    } else {
        assert(last | (rest | last) == rest | last) by (bit_vector);
    }
}

/// The combined mask holds nothing else: it is within every mask that holds the mask
/// of each modifier in the list.
pub proof fn lemma_mask_holds_no_more(
    names: Seq<Seq<char>>,
    masks: Map<Seq<char>, u32>,
    bound: u32,
)
    requires
        forall|i: int|
            0 <= i < names.len() && masks.contains_key(#[trigger] names[i]) ==> within(
                masks[names[i]],
                bound,
            ),
    ensures
        within(mask_of(names, masks), bound),
    decreases names.len(),
{
    if names.len() == 0 {
        assert(0u32 | bound == bound) by (bit_vector);
    } else {
        let front = names.drop_last();
        assert forall|i: int|
            0 <= i < front.len() && masks.contains_key(#[trigger] front[i]) implies within(
            masks[front[i]],
            bound,
        ) by {
            assert(front[i] == names[i]);
        }
        lemma_mask_holds_no_more(front, masks, bound);
        if masks.contains_key(names.last()) {
            let rest = mask_of(front, masks);
            let last = masks[names.last()];
            assert(within(masks[names[names.len() - 1]], bound));
            assert((rest | last) | bound == bound) by (bit_vector)
                requires
                    rest | bound == bound,
                    last | bound == bound,
            ;
        }
    }
}

/// The combined mask depends on which modifiers are in the list, not on their order.
pub proof fn lemma_mask_ignores_order(
    a: Seq<Seq<char>>,
    b: Seq<Seq<char>>,
    masks: Map<Seq<char>, u32>,
)
    requires
        a.to_set() == b.to_set(),
    ensures
        mask_of(a, masks) == mask_of(b, masks),
{
    lemma_mask_within(a, b, masks);
    lemma_mask_within(b, a, masks);
    let x = mask_of(a, masks);
    let y = mask_of(b, masks);
    assert(x == y) by (bit_vector)
        requires
            x | y == y,
            y | x == x,
    ;
}

proof fn lemma_mask_within(a: Seq<Seq<char>>, b: Seq<Seq<char>>, masks: Map<Seq<char>, u32>)
    requires
        a.to_set() == b.to_set(),
    ensures
        within(mask_of(a, masks), mask_of(b, masks)),
{
    assert forall|i: int|
        0 <= i < a.len() && masks.contains_key(#[trigger] a[i]) implies within(
        masks[a[i]],
        mask_of(b, masks),
    ) by {
        assert(a.to_set().contains(a[i]));
        assert(b.to_set().contains(a[i]));
        let k = choose|k: int| 0 <= k < b.len() && b[k] == a[i];
        lemma_mask_holds_each(b, masks, k);
    }
    lemma_mask_holds_no_more(a, masks, mask_of(b, masks));
}

/// What the virtual keyboard knows and has armed.
pub struct VirtualKeyboardState {
    /// keysym → keystroke, scanned from the uploaded keymap's base and shifted levels.
    /// Empty until the keymap is sent; emission is a no-op until then.
    pub keycodes: HashMap<u32, Keystroke>,
    /// modifier name → its mask (e.g. `Control` → the Control mask). Only latchable
    /// modifiers are indexed.
    pub mod_masks: NameMap<u32>,
    /// The modifier names currently latched — armed for the next keystroke, which
    /// consumes (clears) them. None occurs twice. See `toggle_latch`.
    pub latched: Vec<String>,
}

/// The keysyms that an action is to type.
pub open spec fn keysyms_of(action: ActionModel) -> Seq<u32> {
    match action {
        ActionModel::EmitKeysym(keysym) => seq![keysym],
        ActionModel::EmitText(text) => Seq::new(
            text.len(),
            |i: int| crate::keysyms::keysym_of_char(text[i]),
        ),
        _ => Seq::empty(),
    }
}

/// What is armed once the latch of `name` is toggled: a modifier with a mask is armed
/// if it was idle and disarmed if it was armed; one without a mask changes nothing.
pub open spec fn toggled(
    armed: Set<Seq<char>>,
    masks: Map<Seq<char>, u32>,
    name: Seq<char>,
) -> Set<Seq<char>> {
    if !masks.contains_key(name) {
        armed
    } else if armed.contains(name) {
        armed.remove(name)
    } else {
        armed.insert(name)
    }
}

/// A second tap cancels the first: toggling a latch twice leaves what was armed.
pub proof fn lemma_second_tap_cancels(
    armed: Set<Seq<char>>,
    masks: Map<Seq<char>, u32>,
    name: Seq<char>,
)
    ensures
        toggled(toggled(armed, masks, name), masks, name) == armed,
{
    assert(toggled(toggled(armed, masks, name), masks, name) =~= armed);
}

impl VirtualKeyboardState {
    /// The names of the latched modifiers, in the order in which they were latched.
    pub open spec fn latched_names(&self) -> Seq<Seq<char>> {
        crate::text::texts(self.latched@)
    }

    /// The modifiers that are armed.
    pub open spec fn armed(&self) -> Set<Seq<char>> {
        self.latched_names().to_set()
    }

    /// No modifier is latched twice, and none without a mask.
    pub open spec fn wf(&self) -> bool {
        &&& self.latched_names().no_duplicates()
        &&& forall|i: int|
            0 <= i < self.latched_names().len() ==> self.mod_masks@.contains_key(
                #[trigger] self.latched_names()[i],
            )
    }

    /// The combined mask of what is armed.
    pub open spec fn armed_mask(&self) -> u32 {
        mask_of(self.latched_names(), self.mod_masks@)
    }

    /// The keystroke that types `keysym` now: the one of the keymap, with what is armed
    /// held as well. There is none before the keyboard is ready.
    pub open spec fn stroke_for(&self, ready: bool, keysym: u32) -> Option<Keystroke> {
        if ready && self.keycodes@.contains_key(keysym) {
            Some(
                Keystroke {
                    code: self.keycodes@[keysym].code,
                    mods: self.keycodes@[keysym].mods | self.armed_mask(),
                },
            )
        } else {
            None
        }
    }

    /// The keystrokes that type a list of keysyms; what cannot be typed is left out. The
    /// first of them holds what is armed, and consumes it: the others hold their own
    /// modifiers alone.
    pub open spec fn strokes_for(&self, ready: bool, keysyms: Seq<u32>) -> Seq<Keystroke>
        decreases keysyms.len(),
    {
        if keysyms.len() == 0 {
            Seq::empty()
        } else {
            let front = self.strokes_for(ready, keysyms.drop_last());
            match self.stroke_for(ready, keysyms.last()) {
                Some(stroke) => front.push(
                    if front.len() == 0 {
                        stroke
                    } else {
                        self.keycodes@[keysyms.last()]
                    },
                ),
                None => front,
            }
        }
    }

    /// A keyboard with no keymap and nothing armed.
    pub fn new() -> (s: Self)
        ensures
            s.wf(),
            s.keycodes@ == Map::<u32, Keystroke>::empty(),
            s.mod_masks@ == Map::<Seq<char>, u32>::empty(),
            s.armed() == Set::<Seq<char>>::empty(),
            s.latched@.len() == 0,
    {
        let s = VirtualKeyboardState {
            keycodes: HashMap::new(),
            mod_masks: NameMap::new(),
            latched: Vec::new(),
        };
        assert(s.armed() =~= Set::empty());
        s
    }

    /// The combined mask of every currently-latched modifier, to OR into a keystroke.
    pub fn latched_mask(&self) -> (mask: u32)
        ensures
            mask == self.armed_mask(),
    {
        let mut mask: u32 = 0;
        let mut i: usize = 0;
        let ghost names = self.latched_names();
        while i < self.latched.len()
            invariant
                i <= self.latched.len(),
                names == self.latched_names(),
                mask == mask_of(names.take(i as int), self.mod_masks@),
            decreases self.latched.len() - i,
        {
            assert(names.take(i + 1).drop_last() =~= names.take(i as int));
            assert(names.take(i + 1).last() == self.latched@[i as int]@);
            if let Some(m) = self.mod_masks.get(self.latched[i].as_str()) {
                mask = mask | *m;
            }
            i += 1;
        }
        assert(names.take(i as int) =~= names);
        mask
    }

    /// Clear all latched modifiers as a keystroke fires (one-shot).
    pub fn consume_latch(&mut self)
        requires
            old(self).wf(),
        ensures
            final(self).wf(),
            final(self).keycodes == old(self).keycodes,
            final(self).mod_masks == old(self).mod_masks,
            final(self).latched@.len() == 0,
            final(self).armed() == Set::<Seq<char>>::empty(),
    {
        self.latched = Vec::new();
        assert(self.armed() =~= Set::empty());
    }

    /// Where `name` is latched, if it is.
    fn latch_index(&self, name: &str) -> (index: Option<usize>)
        ensures
            index matches Some(i) ==> i < self.latched@.len() && self.latched_names()[i as int] == name@,
            index is None ==> !self.armed().contains(name@),
    {
        let mut i: usize = 0;
        while i < self.latched.len()
            invariant
                i <= self.latched.len(),
                forall|j: int| 0 <= j < i ==> #[trigger] self.latched_names()[j] != name@,
            decreases self.latched.len() - i,
        {
            if same_text(self.latched[i].as_str(), name) {
                return Some(i);
            }
            i += 1;
        }
        None
    }

    /// Whether the modifier `name` is armed.
    pub fn is_latched(&self, name: &str) -> (armed: bool)
        ensures
            armed == self.armed().contains(name@),
    {
        match self.latch_index(name) {
            Some(i) => {
                assert(self.latched_names()[i as int] == name@);
                true
            },
            None => false,
        }
    }

    /// Toggle a modifier's latch: arm it if idle, disarm it if already armed (a second
    /// tap cancels). No-op for a modifier that has no mask.
    pub fn toggle_latch(&mut self, name: &str)
        requires
            old(self).wf(),
        ensures
            final(self).wf(),
            final(self).keycodes == old(self).keycodes,
            final(self).mod_masks == old(self).mod_masks,
            final(self).armed() == toggled(old(self).armed(), old(self).mod_masks@, name@),
            !old(self).mod_masks@.contains_key(name@) ==> *final(self) == *old(self),
    {
        if self.mod_masks.get(name).is_none() {
            return;
        }
        let ghost names = self.latched_names();
        match self.latch_index(name) {
            Some(i) => {
                self.latched.remove(i);
                assert(self.latched_names() =~= names.remove(i as int));
                assert(self.armed() =~= names.to_set().remove(name@)) by {
                    assert forall|n: Seq<char>| #[trigger]
                        self.armed().contains(n) == names.to_set().remove(name@).contains(n) by {
                        if names.to_set().remove(name@).contains(n) {
                            let k = choose|k: int| 0 <= k < names.len() && names[k] == n;
                            let k2 = if k < i { k } else { k - 1 };
                            assert(names.remove(i as int)[k2] == n);
                        }
                        if self.armed().contains(n) {
                            let k = choose|k: int| 0 <= k < names.len() - 1 && names.remove(i as int)[k]
                                == n;
                            let k2 = if k < i { k } else { k + 1 };
                            assert(names[k2] == n);
                        }
                    }
                }
            },
            None => {
                self.latched.push(name.to_owned());
                assert(self.latched_names() =~= names.push(name@));
                assert forall|n: Seq<char>| #[trigger]
                    self.armed().contains(n) == names.to_set().insert(name@).contains(n) by {
                    if names.to_set().contains(n) {
                        let k = choose|k: int| 0 <= k < names.len() && names[k] == n;
                        assert(names.push(name@)[k] == n);
                    }
                    assert(names.push(name@)[names.len() as int] == name@);
                }
                assert(self.armed() =~= names.to_set().insert(name@));
                assert forall|j: int| 0 <= j < names.len() implies #[trigger] names[j] != name@ by {
                    assert(names.to_set().contains(names[j]));
                }
            },
        }
    }

    /// The keystroke for one keysym, with any latched modifiers combined into its own
    /// (a latched Ctrl over an upper-view key yields Ctrl+Shift+key) and so consumed
    /// (one-shot). `None` if the keysym isn't in the uploaded keymap or the keyboard isn't
    /// ready yet; a latch stays armed then.
    pub fn emit_keysym(&mut self, ready: bool, keysym: u32) -> (stroke: Option<Keystroke>)
        requires
            old(self).wf(),
        ensures
            final(self).wf(),
            final(self).keycodes == old(self).keycodes,
            final(self).mod_masks == old(self).mod_masks,
            stroke == old(self).stroke_for(ready, keysym),
            stroke is Some ==> final(self).latched@.len() == 0,
            stroke is None ==> *final(self) == *old(self),
    {
        if !ready {
            return None;
        }
        let own: Keystroke = match self.keycodes.get(&keysym) {
            Some(stroke) => *stroke,
            None => return None,
        };
        let stroke = Keystroke { code: own.code, mods: own.mods | self.latched_mask() };
        self.consume_latch();
        Some(stroke)
    }

    /// Emit a Key action: a keysym (or each char of a text run) becomes a keystroke. The
    /// first keystroke consumes any latched modifiers (one-shot); an action that sends none
    /// does not, so a latch stays armed until a real key fires.
    pub fn emit_action(&mut self, ready: bool, action: &KeyAction) -> (strokes: Vec<Keystroke>)
        requires
            old(self).wf(),
        ensures
            final(self).wf(),
            final(self).keycodes == old(self).keycodes,
            final(self).mod_masks == old(self).mod_masks,
            strokes@ == old(self).strokes_for(ready, keysyms_of(action.model())),
            final(self).armed() == (if strokes@.len() > 0 {
                Set::<Seq<char>>::empty()
            } else {
                old(self).armed()
            }),
            strokes@.len() > 0 ==> final(self).latched@.len() == 0,
            strokes@.len() == 0 ==> *final(self) == *old(self),
    {
        let mut strokes: Vec<Keystroke> = Vec::new();
        let ghost keysyms = keysyms_of(action.model());
        match action {
            KeyAction::EmitKeysym(keysym) => {
                if let Some(stroke) = self.emit_keysym(ready, *keysym) {
                    strokes.push(stroke);
                }
                proof {
                    assert(keysyms.drop_last() =~= Seq::empty());
                    reveal_with_fuel(VirtualKeyboardState::strokes_for, 2);
                    assert(strokes@ =~= old(self).strokes_for(ready, keysyms));
                }
            },
            KeyAction::EmitText(text) => {
                let chars = chars_of(text.as_str());
                let mut i: usize = 0;
                while i < chars.len()
                    invariant
                        i <= chars.len(),
                        chars@ == text@,
                        keysyms == keysyms_of(ActionModel::EmitText(text@)),
                        strokes@ == old(self).strokes_for(ready, keysyms.take(i as int)),
                        self.wf(),
                        self.keycodes == old(self).keycodes,
                        self.mod_masks == old(self).mod_masks,
                        strokes@.len() > 0 ==> self.latched@.len() == 0,
                        strokes@.len() == 0 ==> *self == *old(self),
                    decreases chars.len() - i,
                {
                    let keysym: u32 = keysym_from_char(chars[i]);
                    assert(keysyms.take(i + 1).drop_last() =~= keysyms.take(i as int));
                    assert(keysyms.take(i + 1).last() == keysym);
                    proof {
                        if self.latched@.len() == 0 {
                            self.lemma_latch_is_one_shot(ready, keysym);
                        }
                    }
                    if let Some(stroke) = self.emit_keysym(ready, keysym) {
                        strokes.push(stroke);
                    }
                    i += 1;
                }
                assert(keysyms.take(i as int) =~= keysyms);
            },
            _ => {},
        }
        proof {
            if self.latched@.len() == 0 {
                assert(self.armed() =~= Set::empty());
            }
        }
        strokes
    }

    /// Modifiers latch once: when nothing is armed, as after any keystroke, a keystroke
    /// holds its own modifiers alone.
    pub proof fn lemma_latch_is_one_shot(&self, ready: bool, keysym: u32)
        requires
            self.latched@.len() == 0,
        ensures
            self.stroke_for(ready, keysym) matches Some(stroke) ==> stroke
                == self.keycodes@[keysym],
    {
        let mods = self.keycodes@[keysym].mods;
        assert(mods | 0u32 == mods) by (bit_vector);
    }

    /// A latch covers exactly the next keystroke: of the keystrokes that type a list of
    /// keysyms, the first holds what is armed besides its own modifiers, and every other
    /// holds its own alone.
    pub proof fn lemma_latch_covers_the_first_keystroke(
        &self,
        ready: bool,
        keysyms: Seq<u32>,
        i: int,
    )
        requires
            0 <= i < self.strokes_for(ready, keysyms).len(),
        ensures
            exists|j: int|
                0 <= j < keysyms.len() && self.keycodes@.contains_key(#[trigger] keysyms[j]) && (
                self.strokes_for(ready, keysyms)[i] == if i == 0 {
                    self.stroke_for(true, keysyms[j])->0
                } else {
                    self.keycodes@[keysyms[j]]
                }),
        decreases keysyms.len(),
    {
        let rest = keysyms.drop_last();
        let front = self.strokes_for(ready, rest);
        if i < front.len() {
            self.lemma_latch_covers_the_first_keystroke(ready, rest, i);
            let j = choose|j: int|
                0 <= j < rest.len() && self.keycodes@.contains_key(#[trigger] rest[j]) && (front[i]
                    == if i == 0 {
                    self.stroke_for(true, rest[j])->0
                } else {
                    self.keycodes@[rest[j]]
                });
            assert(keysyms[j] == rest[j]);
        } else {
            assert(keysyms[keysyms.len() - 1] == keysyms.last());
        }
    }

    /// Nothing is sent exactly when nothing can be: the keyboard isn't ready, or none of the
    /// keysyms is in its keymap.
    pub proof fn lemma_what_can_be_typed_is_typed(&self, ready: bool, keysyms: Seq<u32>)
        ensures
            self.strokes_for(ready, keysyms).len() == 0 <==> !ready || forall|j: int|
                0 <= j < keysyms.len() ==> !self.keycodes@.contains_key(#[trigger] keysyms[j]),
        decreases keysyms.len(),
    {
        if keysyms.len() > 0 {
            let rest = keysyms.drop_last();
            self.lemma_what_can_be_typed_is_typed(ready, rest);
            assert(keysyms[keysyms.len() - 1] == keysyms.last());
            assert forall|j: int| 0 <= j < rest.len() implies #[trigger] rest[j] == keysyms[j] by {}
            if ready && self.strokes_for(ready, keysyms).len() == 0 {
                assert forall|j: int| 0 <= j < keysyms.len() implies !self.keycodes@.contains_key(
                    #[trigger] keysyms[j],
                ) by {
                    if j < rest.len() {
                        assert(!self.keycodes@.contains_key(rest[j]));
                    }
                }
            }
        }
    }
}

/// Emit a Key action over the virtual keyboard: the keystrokes to send. See
/// `VirtualKeyboardState::emit_action`.
pub fn emit_action<N>(s: &mut MechanixKeyboardState<N>, action: &KeyAction) -> (strokes: Vec<
    Keystroke,
>)
    requires
        old(s).wf(),
    ensures
        final(s).wf(),
        strokes@ == old(s).virtual_keyboard_state.strokes_for(
            old(s).globals.virtual_keyboard,
            keysyms_of(action.model()),
        ),
        final(s).virtual_keyboard_state.keycodes == old(s).virtual_keyboard_state.keycodes,
        final(s).virtual_keyboard_state.mod_masks == old(s).virtual_keyboard_state.mod_masks,
        final(s).virtual_keyboard_state.armed() == (if strokes@.len() > 0 {
            Set::<Seq<char>>::empty()
        } else {
            old(s).virtual_keyboard_state.armed()
        }),
        strokes@.len() > 0 ==> final(s).virtual_keyboard_state.latched@.len() == 0,
        strokes@.len() == 0 ==> *final(s) == *old(s),
        *final(s) == (MechanixKeyboardState {
            virtual_keyboard_state: final(s).virtual_keyboard_state,
            ..*old(s)
        }),
{
    let ready: bool = s.globals.virtual_keyboard;
    s.virtual_keyboard_state.emit_action(ready, action)
}

/// Toggle a modifier's latch. The armed state is one-shot — the next keystroke emission
/// clears it. See `VirtualKeyboardState::toggle_latch`.
pub fn toggle_latch<N>(s: &mut MechanixKeyboardState<N>, name: &str)
    requires
        old(s).wf(),
    ensures
        final(s).wf(),
        final(s).virtual_keyboard_state.keycodes == old(s).virtual_keyboard_state.keycodes,
        final(s).virtual_keyboard_state.mod_masks == old(s).virtual_keyboard_state.mod_masks,
        final(s).virtual_keyboard_state.armed() == toggled(
            old(s).virtual_keyboard_state.armed(),
            old(s).virtual_keyboard_state.mod_masks@,
            name@,
        ),
        *final(s) == (MechanixKeyboardState {
            virtual_keyboard_state: final(s).virtual_keyboard_state,
            ..*old(s)
        }),
{
    s.virtual_keyboard_state.toggle_latch(name);
}

/// A request to the compositor's virtual keyboard.
#[derive(Debug, Clone, Copy, PartialEq, Eq, Structural)]
pub enum KeyRequest {
    /// Hold exactly these modifiers.
    Modifiers { depressed: u32 },
    /// A key went down or up, at a time in milliseconds.
    Key { time: u32, code: u32, pressed: bool },
}

/// What a keystroke sends: its modifiers, where it has any, around the key going down
/// and up.
pub open spec fn requests_of(stroke: Keystroke, time: u32) -> Seq<KeyRequest> {
    let tap = seq![
        KeyRequest::Key { time, code: stroke.code, pressed: true },
        KeyRequest::Key { time, code: stroke.code, pressed: false },
    ];
    if stroke.mods != 0 {
        seq![KeyRequest::Modifiers { depressed: stroke.mods }] + tap
            + seq![KeyRequest::Modifiers { depressed: 0 }]
    } else {
        tap
    }
}

/// The requests of a keystroke. The combined modifiers go down before the key, so that
/// the receiving app maps the keycode to the right level, and are cleared after it, so
/// that nothing lingers. A bare key (mask 0) sends no modifiers at all.
pub fn stroke_requests(stroke: Keystroke, time: u32) -> (requests: Vec<KeyRequest>)
    ensures
        requests@ == requests_of(stroke, time),
{
    let mut requests: Vec<KeyRequest> = Vec::new();
    if stroke.mods != 0 {
        requests.push(KeyRequest::Modifiers { depressed: stroke.mods });
    }
    requests.push(KeyRequest::Key { time, code: stroke.code, pressed: true });
    requests.push(KeyRequest::Key { time, code: stroke.code, pressed: false });
    if stroke.mods != 0 {
        requests.push(KeyRequest::Modifiers { depressed: 0 });
    }
    assert(requests@ =~= requests_of(stroke, time));
    requests
}

/// What is held at the receiving end: modifiers, and keys by their codes.
pub struct Held {
    pub mods: u32,
    pub keys: Set<u32>,
}

impl Held {
    /// What is held after one more request.
    pub open spec fn after(self, request: KeyRequest) -> Held {
        match request {
            KeyRequest::Modifiers { depressed } => Held { mods: depressed, ..self },
            KeyRequest::Key { time, code, pressed } => Held {
                keys: if pressed {
                    self.keys.insert(code)
                } else {
                    self.keys.remove(code)
                },
                ..self
            },
        }
    }

    /// What is held after a list of requests.
    pub open spec fn after_all(self, requests: Seq<KeyRequest>) -> Held
        decreases requests.len(),
    {
        if requests.len() == 0 {
            self
        } else {
            self.after_all(requests.drop_last()).after(requests.last())
        }
    }
}

/// A keystroke leaves nothing held: with nothing held before it, nothing is after it.
pub proof fn lemma_keystroke_leaves_nothing_held(stroke: Keystroke, time: u32)
    ensures
        ({
            let nothing = Held { mods: 0, keys: Set::empty() };
            nothing.after_all(requests_of(stroke, time)) == nothing
        }),
{
    let nothing = Held { mods: 0, keys: Set::empty() };
    let requests = requests_of(stroke, time);
    lemma_key_goes_down_with_its_modifiers(stroke, time);
    let n = requests.len() as int;
    let down = if stroke.mods != 0 { 2int } else { 1int };
    let pressed = nothing.after_all(requests.take(down));
    let released = pressed.after(requests[down]);
    assert(requests.take(down + 1).drop_last() =~= requests.take(down));
    assert(nothing.after_all(requests.take(down + 1)) == released);
    assert(released.keys =~= Set::empty());
    if stroke.mods != 0 {
        assert(requests.drop_last() =~= requests.take(down + 1));
    } else {
        assert(requests.take(down + 1) =~= requests);
    }
}

/// When the key of a keystroke goes down, exactly its modifiers are held.
pub proof fn lemma_key_goes_down_with_its_modifiers(stroke: Keystroke, time: u32)
    ensures
        ({
            let nothing = Held { mods: 0, keys: Set::empty() };
            let down = if stroke.mods != 0 { 2int } else { 1int };
            let held = nothing.after_all(requests_of(stroke, time).take(down));
            held.mods == stroke.mods && held.keys == Set::<u32>::empty().insert(stroke.code)
        }),
{
    let requests = requests_of(stroke, time);
    reveal_with_fuel(Held::after_all, 3);
    if stroke.mods != 0 {
        assert(requests.take(2).drop_last() =~= requests.take(1));
        assert(requests.take(1).drop_last() =~= Seq::empty());
    } else {
        assert(requests.take(1).drop_last() =~= Seq::empty());
    }
}

/// The low 32 bits of a number.
fn low_bits(n: u128) -> (low: u32)
    ensures
        low as int == n as int % 0x1_0000_0000,
{
    assert(n as u32 as u128 == n % 0x1_0000_0000u128) by (bit_vector);
    #[verifier::truncate]
    (n as u32)
}

/// The time stamp of a moment, by the milliseconds that have passed.
pub open spec fn stamp_of(elapsed_ms: int) -> int {
    elapsed_ms % 0x1_0000_0000
}

/// The time stamp of a request: the milliseconds that have passed, in 32 bits.
pub fn wire_time(elapsed_ms: u128) -> (time: u32)
    ensures
        time as int == stamp_of(elapsed_ms as int),
        time as int == elapsed_ms as int % 0x1_0000_0000,
{
    low_bits(elapsed_ms)
}

/// A keymap's text as it is shared: the text, a NUL behind it, and their size.
pub struct KeymapImage {
    pub bytes: Vec<u8>,
    pub size: u32,
}

/// A text as it is shared.
pub open spec fn image_of(text: Seq<u8>) -> Seq<u8> {
    text.push(0)
}

/// The NUL-terminated buffer that holds `text`, and its size as it is announced.
pub fn keymap_image(text: &[u8]) -> (image: KeymapImage)
    requires
        text@.len() < usize::MAX,
    ensures
        image.bytes@ == image_of(text@),
        image.bytes@ == text@.push(0),
        image.size as int == (text@.len() + 1) % 0x1_0000_0000,
{
    let size: usize = text.len() + 1;
    let mut bytes: Vec<u8> = Vec::new();
    let mut i: usize = 0;
    while i < text.len()
        invariant
            i <= text@.len(),
            bytes@ == text@.take(i as int),
        decreases text.len() - i,
    {
        bytes.push(text[i]);
        i += 1;
        assert(bytes@ =~= text@.take(i as int));
    }
    bytes.push(0);
    assert(bytes@ =~= text@.push(0));
    KeymapImage { bytes, size: low_bits(size as u128) }
}

} // verus!
