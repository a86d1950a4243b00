//! The bar's surface: the globals that it is made of, and how it comes to be.

use vstd::prelude::*;

use crate::render::Slot;
use crate::state::MechanixKeyboardState;
use crate::text::same_text;

verus! {

/// Height in logical px of the Handle — the full-width band at the bottom edge, always
/// drawn, whose tap toggles Bar visibility. It is the bar's entire height when hidden,
/// and is added below the aspect-locked keyboard when shown.
pub const HANDLE_HEIGHT: u32 = 40;

/// A global that the registry advertised, by its name and version.
#[derive(Debug, Clone, Copy, PartialEq, Eq, Structural)]
pub struct Global {
    pub name: u32,
    pub version: u32,
}

/// The globals that are bound, and which input devices.
#[derive(Debug, Clone, Copy)]
pub struct WaylandGlobals {
    pub compositor: Option<Global>,
    pub output: Option<Global>,
    pub layer_shell: Option<Global>,
    pub dmabuf: Option<Global>,
    pub seat: Option<Global>,
    pub pointer: bool,
    pub keyboard: bool,
    pub touch: bool,
    pub virtual_keyboard_manager: Option<Global>,
    pub virtual_keyboard: bool,
}

impl WaylandGlobals {
    /// Nothing bound.
    pub open spec fn none() -> WaylandGlobals {
        WaylandGlobals {
            compositor: None,
            output: None,
            layer_shell: None,
            dmabuf: None,
            seat: None,
            pointer: false,
            keyboard: false,
            touch: false,
            virtual_keyboard_manager: None,
            virtual_keyboard: false,
        }
    }
}

impl Default for WaylandGlobals {
    /// Nothing bound.
    fn default() -> (globals: Self)
        ensures
            globals == WaylandGlobals::none(),
    {
        WaylandGlobals {
            compositor: None,
            output: None,
            layer_shell: None,
            dmabuf: None,
            seat: None,
            pointer: false,
            keyboard: false,
            touch: false,
            virtual_keyboard_manager: None,
            virtual_keyboard: false,
        }
    }
}

/// The bar's surface.
pub struct WindowState {
    pub slots: Option<[Slot; 2]>,
    pub back: usize,
    pub physical_width: u32,
    pub physical_height: u32,
    pub logical_width: u32,
    pub logical_height: u32,
    /// The logical height we last asked the compositor for, so we only re-request (and
    /// wait for another `Configure`) when the aspect-derived height changes.
    pub requested_height: u32,
    /// A frame callback fired while the back buffer was still in flight; draw as soon as
    /// its release lands.
    pub pending_frame: bool,
    /// Bar visibility: `true` shows the keyboard above the Handle, `false` shows only
    /// the Handle. Flipped by a Handle tap; drives the surface height. Starts hidden.
    pub visible: bool,
}

/// The kinds of globals that the bar needs.
#[derive(Debug, Clone, Copy, PartialEq, Eq, Structural)]
pub enum GlobalKind {
    Compositor,
    LayerShell,
    Output,
    Dmabuf,
    Seat,
    VirtualKeyboardManager,
}

/// The kind of global that an interface name stands for.
pub open spec fn kind_of(interface: Seq<char>) -> Option<GlobalKind> {
    if interface == "wl_compositor"@ {
        Some(GlobalKind::Compositor)
    } else if interface == "zwlr_layer_shell_v1"@ {
        Some(GlobalKind::LayerShell)
    } else if interface == "wl_output"@ {
        Some(GlobalKind::Output)
    } else if interface == "zwp_linux_dmabuf_v1"@ {
        Some(GlobalKind::Dmabuf)
    } else if interface == "wl_seat"@ {
        Some(GlobalKind::Seat)
    } else if interface == "zwp_virtual_keyboard_manager_v1"@ {
        Some(GlobalKind::VirtualKeyboardManager)
    } else {
        None
    }
}

impl WaylandGlobals {
    /// The globals with one more bound, in the place of an earlier one of its kind.
    pub open spec fn with(self, kind: GlobalKind, global: Global) -> WaylandGlobals {
        match kind {
            GlobalKind::Compositor => WaylandGlobals { compositor: Some(global), ..self },
            GlobalKind::LayerShell => WaylandGlobals { layer_shell: Some(global), ..self },
            GlobalKind::Output => WaylandGlobals { output: Some(global), ..self },
            GlobalKind::Dmabuf => WaylandGlobals { dmabuf: Some(global), ..self },
            GlobalKind::Seat => WaylandGlobals { seat: Some(global), ..self },
            GlobalKind::VirtualKeyboardManager => WaylandGlobals {
                virtual_keyboard_manager: Some(global),
                ..self
            },
        }
    }

    /// Which devices to ask the seat for: those that it reports and that are not bound.
    pub open spec fn missing(self, reported: Devices) -> Devices {
        Devices {
            keyboard: self.seat is Some && reported.keyboard && !self.keyboard,
            pointer: self.seat is Some && reported.pointer && !self.pointer,
            touch: self.seat is Some && reported.touch && !self.touch,
        }
    }

    /// The globals with more devices bound.
    pub open spec fn with_devices(self, devices: Devices) -> WaylandGlobals {
        WaylandGlobals {
            keyboard: self.keyboard || devices.keyboard,
            pointer: self.pointer || devices.pointer,
            touch: self.touch || devices.touch,
            ..self
        }
    }

    /// Each device is asked for once: what was just bound is not missing when the seat
    /// reports again.
    pub proof fn lemma_devices_are_bound_once(self, first: Devices, again: Devices)
        ensures
            ({
                let asked = self.missing(first);
                let later = self.with_devices(asked).missing(again);
                !(asked.keyboard && later.keyboard) && !(asked.pointer && later.pointer) && !(
                asked.touch && later.touch)
            }),
    {
    }
}

/// The input devices of a seat.
#[derive(Debug, Clone, Copy, PartialEq, Eq, Structural)]
pub struct Devices {
    pub keyboard: bool,
    pub pointer: bool,
    pub touch: bool,
}

fn classify(interface: &str) -> (kind: Option<GlobalKind>)
    ensures
        kind == kind_of(interface@),
{
    if same_text(interface, "wl_compositor") {
        Some(GlobalKind::Compositor)
    } else if same_text(interface, "zwlr_layer_shell_v1") {
        Some(GlobalKind::LayerShell)
    } else if same_text(interface, "wl_output") {
        Some(GlobalKind::Output)
    } else if same_text(interface, "zwp_linux_dmabuf_v1") {
        Some(GlobalKind::Dmabuf)
    } else if same_text(interface, "wl_seat") {
        Some(GlobalKind::Seat)
    } else if same_text(interface, "zwp_virtual_keyboard_manager_v1") {
        Some(GlobalKind::VirtualKeyboardManager)
    } else {
        None
    }
}

/// The registry advertised a global: say which kind to bind it as, if the bar needs it.
pub fn on_registry<N>(
    s: &mut MechanixKeyboardState<N>,
    interface: &str,
    global: Global,
) -> (kind: Option<GlobalKind>)
    requires
        old(s).wf(),
    ensures
        final(s).wf(),
        kind == kind_of(interface@),
        *final(s) == (MechanixKeyboardState {
            globals: match kind_of(interface@) {
                Some(kind) => old(s).globals.with(kind, global),
                None => old(s).globals,
            },
            ..*old(s)
        }),
{
    let kind = classify(interface);
    match kind {
        Some(GlobalKind::Compositor) => s.globals.compositor = Some(global),
        Some(GlobalKind::LayerShell) => s.globals.layer_shell = Some(global),
        Some(GlobalKind::Output) => s.globals.output = Some(global),
        Some(GlobalKind::Dmabuf) => s.globals.dmabuf = Some(global),
        Some(GlobalKind::Seat) => s.globals.seat = Some(global),
        Some(GlobalKind::VirtualKeyboardManager) => {
            s.globals.virtual_keyboard_manager = Some(global)
        },
        None => {},
    }
    kind
}

/// The seat reported its devices: say which to ask it for, and count them as bound.
pub fn on_seat<N>(s: &mut MechanixKeyboardState<N>, reported: Devices) -> (asked: Devices)
    requires
        old(s).wf(),
    ensures
        final(s).wf(),
        asked == old(s).globals.missing(reported),
        *final(s) == (MechanixKeyboardState {
            globals: old(s).globals.with_devices(asked),
            ..*old(s)
        }),
{
    let mut asked = Devices { keyboard: false, pointer: false, touch: false };
    if s.globals.seat.is_none() {
        return asked;
    }
    if reported.keyboard && !s.globals.keyboard {
        s.globals.keyboard = true;
        asked.keyboard = true;
    }
    if reported.pointer && !s.globals.pointer {
        s.globals.pointer = true;
        asked.pointer = true;
    }
    if reported.touch && !s.globals.touch {
        s.globals.touch = true;
        asked.touch = true;
    }
    asked
}

/// The scale of an output that reports a factor, and had a scale before.
pub open spec fn scale_after(scale: i32, factor: i32) -> i32 {
    if factor <= 0 {
        scale
    } else {
        factor
    }
}

/// Track the output's buffer-scale factor (HiDPI). A factor that is not above zero is
/// ignored.
pub fn on_output<N>(s: &mut MechanixKeyboardState<N>, factor: i32)
    requires
        old(s).wf(),
    ensures
        final(s).wf(),
        final(s).scale == scale_after(old(s).scale, factor),
        *final(s) == (MechanixKeyboardState {
            scale: if factor > 0 {
                factor
            } else {
                old(s).scale
            },
            ..*old(s)
        }),
{
    if factor > 0 {
        s.scale = factor;
    }
}

/// A request for the bar's surface.
#[derive(Debug, Clone, Copy, PartialEq, Eq, Structural)]
pub enum SurfaceRequest {
    /// Answer a configure event, by its serial.
    AckConfigure(u32),
    /// Ask for a size; a width of 0 leaves the width to the compositor.
    SetSize { width: u32, height: u32 },
    /// Keep to the bottom edge, from the left edge to the right.
    AnchorToBottom,
    /// Reserve a band of this height.
    SetExclusiveZone(i32),
    /// Take no keyboard focus.
    NoKeyboardInteractivity,
    /// Draw at this many buffer pixels per logical pixel.
    SetBufferScale(i32),
    /// Apply what was asked for.
    Commit,
}

/// What a new surface asks for. The bar starts hidden: it maps as just the Handle. A
/// constant Handle-height zone is reserved in both states, so toggling never reflows
/// other clients.
pub open spec fn new_surface_requests() -> Seq<SurfaceRequest> {
    seq![
        SurfaceRequest::SetSize { width: 0, height: HANDLE_HEIGHT },
        SurfaceRequest::AnchorToBottom,
        SurfaceRequest::SetExclusiveZone(HANDLE_HEIGHT as i32),
        SurfaceRequest::NoKeyboardInteractivity,
        SurfaceRequest::Commit,
    ]
}

/// A window that has just been created: no buffers, no size, hidden.
pub open spec fn new_window() -> WindowState {
    WindowState {
        slots: None,
        back: 0,
        physical_width: 0,
        physical_height: 0,
        logical_width: 0,
        logical_height: 0,
        requested_height: HANDLE_HEIGHT,
        pending_frame: false,
        visible: false,
    }
}

impl<N> MechanixKeyboardState<N> {
    /// Whether the surface can be created and has not been.
    pub open spec fn can_create_window(&self) -> bool {
        self.window is None && self.globals.compositor is Some && self.globals.layer_shell is Some
    }
}

/// Registry roundtrip done: globals are in, so create the layer surface and commit it
/// (no buffer yet — that waits for the first `configure`). Once only.
pub fn create_window<N>(s: &mut MechanixKeyboardState<N>) -> (requests: Option<Vec<SurfaceRequest>>)
    requires
        old(s).wf(),
    ensures
        final(s).wf(),
        requests is Some <==> old(s).can_create_window(),
        requests matches Some(list) ==> list@ == new_surface_requests(),
        *final(s) == (if old(s).can_create_window() {
            MechanixKeyboardState { window: Some(new_window()), ..*old(s) }
        } else {
            *old(s)
        }),
{
    if s.window.is_some() || s.globals.compositor.is_none() || s.globals.layer_shell.is_none() {
        return None;
    }
    let mut requests: Vec<SurfaceRequest> = Vec::new();
    requests.push(SurfaceRequest::SetSize { width: 0, height: HANDLE_HEIGHT });
    requests.push(SurfaceRequest::AnchorToBottom);
    requests.push(SurfaceRequest::SetExclusiveZone(HANDLE_HEIGHT as i32));
    requests.push(SurfaceRequest::NoKeyboardInteractivity);
    requests.push(SurfaceRequest::Commit);
    assert(requests@ =~= new_surface_requests());
    s.window = Some(
        WindowState {
            slots: None,
            back: 0,
            physical_width: 0,
            physical_height: 0,
            logical_width: 0,
            logical_height: 0,
            requested_height: HANDLE_HEIGHT,
            pending_frame: false,
            visible: false,
        },
    );
    Some(requests)
}

/// What a done callback leads to.
pub enum CallbackOutcome {
    /// Nothing to do.
    Nothing,
    /// A frame callback: repaint.
    Render,
    /// The registry roundtrip: create a surface, with these requests.
    Create(Vec<SurfaceRequest>),
}

impl<N> MechanixKeyboardState<N> {
    /// What a done callback does: one that was asked for with a frame is awaited no longer and
    /// repaints; any other creates the surface where that can be created.
    pub open spec fn called_back(
        &self,
        id: Option<u64>,
        outcome: CallbackOutcome,
        next: MechanixKeyboardState<N>,
    ) -> bool {
        if id is Some && self.frame_callbacks@.contains(id->0) {
            &&& outcome is Render
            &&& next.frame_callbacks@ == self.frame_callbacks@.remove(id->0)
            &&& next == (MechanixKeyboardState { frame_callbacks: next.frame_callbacks, ..*self })
        } else {
            let creates = id is Some && self.can_create_window();
            &&& creates ==> outcome is Create && (outcome->Create_0)@ == new_surface_requests()
            &&& !creates ==> outcome is Nothing
            &&& next.frame_callbacks@ == self.frame_callbacks@
            &&& next.window == (if creates {
                Some(new_window())
            } else {
                self.window
            })
            &&& next == (MechanixKeyboardState {
                frame_callbacks: next.frame_callbacks,
                window: next.window,
                ..*self
            })
        }
    }
}

/// One callback is done: either a frame callback we requested (repaint) or the initial
/// registry roundtrip (create the surface). `id` is `None` for a callback that is gone.
pub fn on_callback<N>(s: &mut MechanixKeyboardState<N>, id: Option<u64>) -> (outcome:
    CallbackOutcome)
    requires
        old(s).wf(),
    ensures
        final(s).wf(),
        old(s).called_back(id, outcome, *final(s)),
        match id {
            None => outcome is Nothing && *final(s) == *old(s),
            Some(id) => if old(s).frame_callbacks@.contains(id) {
                &&& outcome is Render
                &&& final(s).frame_callbacks@ == old(s).frame_callbacks@.remove(id)
                &&& *final(s) == (MechanixKeyboardState {
                    frame_callbacks: final(s).frame_callbacks,
                    ..*old(s)
                })
            } else if old(s).can_create_window() {
                &&& outcome matches CallbackOutcome::Create(list) && list@ == new_surface_requests()
                &&& final(s).window == Some(new_window())
                &&& final(s).frame_callbacks@ == old(s).frame_callbacks@
                &&& *final(s) == (MechanixKeyboardState {
                    frame_callbacks: final(s).frame_callbacks,
                    window: final(s).window,
                    ..*old(s)
                })
            } else {
                &&& outcome is Nothing
                &&& final(s).frame_callbacks@ == old(s).frame_callbacks@
                &&& *final(s) == (MechanixKeyboardState {
                    frame_callbacks: final(s).frame_callbacks,
                    ..*old(s)
                })
            },
        },
{
    match id {
        None => CallbackOutcome::Nothing,
        Some(id) => {
            if s.frame_callbacks.remove(&id) {
                CallbackOutcome::Render
            } else {
                assert(s.frame_callbacks@ =~= old(s).frame_callbacks@);
                match create_window(s) {
                    Some(requests) => CallbackOutcome::Create(requests),
                    None => CallbackOutcome::Nothing,
                }
            }
        },
    }
}

} // verus!
