//! The state of the keyboard, and how it comes up.

use std::collections::HashSet;

use vstd::prelude::*;
use vstd::view::View as _;

use crate::layout::{Keymap, View};
use crate::names::NameMap;
use crate::virtual_keyboard::{scan_keycodes, KeyTable, Keystroke, VirtualKeyboardState};
use crate::window::{WaylandGlobals, WindowState};

verus! {

/// The Keymap view shown when the keyboard first appears. The current view then
/// changes at runtime as view-switch keys are tapped; see `current_view`.
pub const INITIAL_VIEW: &'static str = "base";

/// All that the keyboard decides by.
pub struct MechanixKeyboardState<N> {
    pub globals: WaylandGlobals,
    pub window: Option<WindowState>,
    /// The frame callbacks that were asked for and have not come.
    pub frame_callbacks: HashSet<u64>,
    pub keymap: Option<Keymap<N>>,
    /// Index into `keymap.views` of the Current view — the one we render and hit-test.
    /// Resolved from `INITIAL_VIEW` when the keymap loads, then updated by view-switch
    /// keys.
    pub current_view: usize,
    /// Whether the glyph atlas has been uploaded.
    pub atlas_texture: bool,
    /// Output buffer-scale factor (HiDPI).
    pub scale: i32,
    /// The label of the key under the pointer.
    pub last_hover: Option<String>,
    pub virtual_keyboard_state: VirtualKeyboardState,
}

impl<N> MechanixKeyboardState<N> {
    /// What holds of every state: the output scale is at least one, a loaded keymap
    /// that has views has a current one, one of the window's two buffers is the back
    /// one, a window with buffers has a size, and nothing can be typed or latched before the virtual keyboard exists.
    pub open spec fn wf(&self) -> bool {
        &&& self.scale >= 1
        &&& self.virtual_keyboard_state.wf()
        &&& !self.globals.virtual_keyboard ==> self.virtual_keyboard_state.keycodes@ == Map::<
            u32,
            Keystroke,
        >::empty() && self.virtual_keyboard_state.mod_masks@ == Map::<Seq<char>, u32>::empty()
        &&& self.window matches Some(window) ==> window.back < 2 && (window.slots is Some
            ==> window.logical_width != 0 && window.logical_height != 0)
        &&& self.keymap matches Some(keymap) ==> keymap.views@.len() > 0 ==> self.current_view
            < keymap.views@.len()
    }

    /// The view that is current, if the keymap is loaded.
    pub open spec fn shown(&self) -> Option<&View<N>> {
        match self.keymap {
            Some(keymap) => if self.current_view < keymap.views@.len() {
                Some(&keymap.views@[self.current_view as int])
            } else {
                None
            },
            None => None,
        }
    }

    /// The keyboard before anything has happened.
    pub fn new() -> (s: Self)
        ensures
            s.wf(),
            s.globals == WaylandGlobals::none(),
            s.window is None,
            s.frame_callbacks@ == Set::<u64>::empty(),
            s.keymap is None,
            s.current_view == 0,
            !s.atlas_texture,
            s.scale == 1,
            s.last_hover is None,
            s.virtual_keyboard_state.keycodes@ == Map::<
                u32,
                Keystroke,
            >::empty(),
            s.virtual_keyboard_state.mod_masks@ == Map::<Seq<char>, u32>::empty(),
            s.virtual_keyboard_state.armed() == Set::<Seq<char>>::empty(),
    {
        MechanixKeyboardState {
            globals: WaylandGlobals::default(),
            window: None,
            frame_callbacks: HashSet::new(),
            keymap: None,
            current_view: 0,
            atlas_texture: false,
            scale: 1,
            last_hover: None,
            virtual_keyboard_state: VirtualKeyboardState::new(),
        }
    }

    /// The Current view — what to render and hit-test — or `None` until the keymap is
    /// loaded.
    pub fn current_view(&self) -> (view: Option<&View<N>>)
        ensures
            view == self.shown(),
    {
        match &self.keymap {
            Some(keymap) => if self.current_view < keymap.views.len() {
                Some(&keymap.views[self.current_view])
            } else {
                None
            },
            None => None,
        }
    }

    /// What loading a keymap does: it is there, on the initial view or else on the first.
    pub open spec fn loaded(&self, keymap: Keymap<N>, next: MechanixKeyboardState<N>) -> bool {
        &&& next.current_view as int == (match crate::keymap::position(
            keymap.names(),
            INITIAL_VIEW@,
        ) {
            Some(i) => i,
            None => 0,
        })
        &&& next == (MechanixKeyboardState {
            keymap: Some(keymap),
            current_view: next.current_view,
            ..*self
        })
    }

    /// What installing the virtual keyboard does: what a keymap's keys type can be typed, and
    /// Control can be latched.
    pub open spec fn installed(&self, table: KeyTable, next: MechanixKeyboardState<N>) -> bool {
        let keyboard = next.virtual_keyboard_state;
        &&& forall|keysym: u32| #[trigger]
            keyboard.keycodes@.contains_key(keysym) <==> table.stroke_of(keysym) is Some
        &&& forall|keysym: u32| #[trigger]
            keyboard.keycodes@.contains_key(keysym) ==> table.stroke_of(keysym) == Some(
                keyboard.keycodes@[keysym],
            )
        &&& keyboard.mod_masks@ == Map::<Seq<char>, u32>::empty().insert(
            "Control"@,
            1u32 << table.control_index,
        )
        &&& keyboard.latched == self.virtual_keyboard_state.latched
        &&& next == (MechanixKeyboardState {
            globals: WaylandGlobals { virtual_keyboard: true, ..self.globals },
            virtual_keyboard_state: keyboard,
            ..*self
        })
    }

    /// Start using a keymap: on the initial view, or on the first view if that is
    /// absent.
    pub fn load_keymap(&mut self, keymap: Keymap<N>)
        requires
            old(self).wf(),
        ensures
            final(self).wf(),
            old(self).loaded(keymap, *final(self)),
            final(self).current_view as int == (match crate::keymap::position(
                keymap.names(),
                INITIAL_VIEW@,
            ) {
                Some(i) => i,
                None => 0,
            }),
            *final(self) == (MechanixKeyboardState {
                keymap: Some(keymap),
                current_view: final(self).current_view,
                ..*old(self)
            }),
    {
        self.current_view = match keymap.index_of(INITIAL_VIEW) {
            Some(i) => i,
            None => 0,
        };
        self.keymap = Some(keymap);
    }

    /// Whether to create the virtual keyboard now. The seat and the manager are only
    /// known after the registry roundtrip, so it is created on the first poll where
    /// both are there; once it exists there is nothing to do.
    pub fn wants_virtual_keyboard(&self) -> (wanted: bool)
        ensures
            wanted == (!self.globals.virtual_keyboard && self.globals.seat is Some
                && self.globals.virtual_keyboard_manager is Some),
    {
        !self.globals.virtual_keyboard && self.globals.seat.is_some()
            && self.globals.virtual_keyboard_manager.is_some()
    }

    /// The virtual keyboard exists and has its keymap: index the keystrokes and the
    /// modifiers a latched key can arm. Control only — mirrors the modifier gate of
    /// `resolve_action`.
    pub fn install_virtual_keyboard(&mut self, table: &KeyTable)
        requires
            old(self).wf(),
            !old(self).globals.virtual_keyboard,
            table.wf(),
        ensures
            final(self).wf(),
            old(self).installed(*table, *final(self)),
            forall|keysym: u32| #[trigger]
                final(self).virtual_keyboard_state.keycodes@.contains_key(keysym)
                    <==> table.stroke_of(keysym) is Some,
            forall|keysym: u32| #[trigger]
                final(self).virtual_keyboard_state.keycodes@.contains_key(keysym)
                    ==> table.stroke_of(keysym) == Some(
                    final(self).virtual_keyboard_state.keycodes@[keysym],
                ),
            final(self).virtual_keyboard_state.mod_masks@ == Map::<Seq<char>, u32>::empty().insert(
                "Control"@,
                1u32 << table.control_index,
            ),
            final(self).virtual_keyboard_state.latched
                == old(self).virtual_keyboard_state.latched,
            *final(self) == (MechanixKeyboardState {
                globals: WaylandGlobals { virtual_keyboard: true, ..old(self).globals },
                virtual_keyboard_state: final(self).virtual_keyboard_state,
                ..*old(self)
            }),
    {
        assert(self.virtual_keyboard_state.latched_names().len() == 0) by {
            if self.virtual_keyboard_state.latched_names().len() > 0 {
                let name = self.virtual_keyboard_state.latched_names()[0];
                assert(self.virtual_keyboard_state.mod_masks@.contains_key(name));
            }
        }
        let keycodes = scan_keycodes(table);
        let mut mod_masks: NameMap<u32> = NameMap::new();
        mod_masks.insert("Control".to_owned(), 1u32 << table.control_index);
        self.globals.virtual_keyboard = true;
        self.virtual_keyboard_state.keycodes = keycodes;
        self.virtual_keyboard_state.mod_masks = mod_masks;
    }
}

/// Where the layout is read from.
pub enum LayoutSource {
    /// The file that the environment names.
    Path(String),
    /// `layout.yaml` in the working directory.
    Local,
    /// The layout that comes with the keyboard.
    Fallback,
}

/// Where the layout is read from, by what the environment names and whether there is a local
/// file.
pub open spec fn source_of(named: Option<String>, local_is_file: bool) -> LayoutSource {
    if named is Some {
        LayoutSource::Path(named->0)
    } else if local_is_file {
        LayoutSource::Local
    } else {
        LayoutSource::Fallback
    }
}

/// Choose where the layout is read from: the file that the environment names, else
/// `layout.yaml` in the working directory where that is a file, else the fallback.
pub fn layout_source(named: Option<String>, local_is_file: bool) -> (source: LayoutSource)
    ensures
        source == source_of(named, local_is_file),
        source == (match named {
            Some(path) => LayoutSource::Path(path),
            None => if local_is_file {
                LayoutSource::Local
            } else {
                LayoutSource::Fallback
            },
        }),
{
    match named {
        Some(path) => LayoutSource::Path(path),
        None => if local_is_file {
            LayoutSource::Local
        } else {
            LayoutSource::Fallback
        },
    }
}

} // verus!
