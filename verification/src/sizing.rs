//! How tall the bar is, and how its buffers and its coordinates follow from that.

use vstd::prelude::*;
use vstd::view::View as _;

use crate::layout::{View, ViewModel};
use crate::scalar::{Arithmetic, Rect, Scalar};
use crate::state::MechanixKeyboardState;
use crate::window::{SurfaceRequest, WindowState, HANDLE_HEIGHT};

verus! {

/// A size that does not fit the numbers of the protocol.
#[derive(Debug, Clone, Copy, PartialEq, Eq, Structural)]
pub struct SizeOverflow;

/// The size of a buffer in physical pixels.
#[derive(Debug, Clone, Copy, PartialEq, Eq, Structural)]
pub struct BufferSize {
    pub width: u32,
    pub height: u32,
}

/// How tall the keyboard is when it is `logical_w` wide: aspect-locked to its view.
pub open spec fn keyboard_height<N>(m: Arithmetic<N>, view: ViewModel<N>, logical_w: u32) -> u32 {
    (m.rounded)(
        (m.over)(
            (m.times)(view.extent_y(m), (m.from_u32)(logical_w)),
            view.extent_x(m),
        ),
    )
}

/// How tall the bar is. Shown: the keyboard and the Handle. Hidden: the Handle alone,
/// whatever the width.
pub open spec fn bar_height<N>(
    m: Arithmetic<N>,
    view: ViewModel<N>,
    visible: bool,
    logical_w: u32,
) -> int {
    if visible {
        keyboard_height(m, view, logical_w) + HANDLE_HEIGHT
    } else {
        HANDLE_HEIGHT as int
    }
}

/// The width that a configure event grants: a width of 0 keeps the one that the bar has.
pub open spec fn granted_width(window: WindowState, width: u32) -> u32 {
    if width != 0 {
        width
    } else if window.logical_width != 0 {
        window.logical_width
    } else {
        1
    }
}

/// What a configure event leads to.
pub enum ConfigurePlan {
    /// Nothing can be drawn yet: the event is not even acknowledged.
    Ignore,
    /// The keyboard would have no height: acknowledge, and nothing else.
    Acknowledge,
    /// The bar wants another height than it asked for last: ask for it.
    Request { height: int },
    /// The bar has the height that it asked for: present a frame.
    Present { height: int },
}

/// What the compositor and the renderer are to do about a configure event.
pub struct ConfigureOutcome {
    pub requests: Vec<SurfaceRequest>,
    /// Allocate two buffers of this size, and hand them to `install_slots`.
    pub alloc: Option<BufferSize>,
    /// Then render.
    pub render: bool,
}

impl ConfigureOutcome {
    /// Whether the outcome is nothing but these requests.
    pub open spec fn only(&self, requests: Seq<SurfaceRequest>) -> bool {
        self.requests@ == requests && self.alloc is None && !self.render
    }
}

impl<N> MechanixKeyboardState<N> {
    /// What a configure event that grants `width` leads to.
    pub open spec fn configure_plan(&self, m: Arithmetic<N>, width: u32) -> ConfigurePlan {
        match (self.globals.dmabuf, self.shown(), self.window) {
            (Some(_), Some(view), Some(window)) => {
                let logical_w = granted_width(window, width);
                let height = bar_height(m, view.model(), window.visible, logical_w);
                if !(m.is_positive)(view.model().extent_x(m)) {
                    ConfigurePlan::Ignore
                } else if window.visible && keyboard_height(m, view.model(), logical_w) == 0 {
                    ConfigurePlan::Acknowledge
                } else if window.requested_height != height {
                    ConfigurePlan::Request { height }
                } else {
                    ConfigurePlan::Present { height }
                }
            },
            _ => ConfigurePlan::Ignore,
        }
    }

    /// Whether the window lacks buffers of this size.
    pub open spec fn needs_buffers(window: WindowState, width: int, height: int) -> bool {
        window.slots is None || window.physical_width != width || window.physical_height != height
    }

    /// What a configure event does.
    pub open spec fn configured(
        &self,
        m: Arithmetic<N>,
        serial: u32,
        width: u32,
        outcome: Result<ConfigureOutcome, SizeOverflow>,
        next: Option<WindowState>,
    ) -> bool {
        let window = self.window->0;
        let w = granted_width(window, width);
        let ack = SurfaceRequest::AckConfigure(serial);
        match self.configure_plan(m, width) {
            ConfigurePlan::Ignore => {
                &&& outcome matches Ok(o) && o.only(Seq::empty())
                &&& next == self.window
            },
            ConfigurePlan::Acknowledge => {
                &&& outcome matches Ok(o) && o.only(seq![ack])
                &&& next == Some(WindowState { logical_width: w, ..window })
            },
            ConfigurePlan::Request { height } => if height > u32::MAX {
                &&& outcome is Err
                &&& next == self.window
            } else {
                &&& outcome matches Ok(o) && o.only(
                    seq![
                        ack,
                        SurfaceRequest::SetSize { width: 0, height: height as u32 },
                        SurfaceRequest::Commit,
                    ],
                )
                &&& next == Some(
                    WindowState { logical_width: w, requested_height: height as u32, ..window },
                )
            },
            ConfigurePlan::Present { height } => {
                let (bw, bh) = (w * self.scale, height * self.scale);
                if bw > u32::MAX || bh > u32::MAX {
                    &&& outcome is Err
                    &&& next == self.window
                } else if Self::needs_buffers(window, bw, bh) {
                    &&& outcome matches Ok(o) && o.requests@ == seq![
                        ack,
                        SurfaceRequest::SetBufferScale(self.scale),
                    ] && o.alloc == Some(BufferSize { width: bw as u32, height: bh as u32 })
                        && o.render
                    &&& next == Some(
                        WindowState {
                            logical_width: w,
                            logical_height: height as u32,
                            physical_width: bw as u32,
                            physical_height: bh as u32,
                            ..window
                        },
                    )
                } else {
                    &&& outcome matches Ok(o) && o.requests@ == seq![ack] && o.alloc is None
                        && o.render
                    &&& next == Some(WindowState { logical_width: w, ..window })
                }
            },
        }
    }
}

/// Compositor sized the surface. It grants the width (we anchor left+right); we infer
/// the height from it, aspect-locked to the current view. While the height we last
/// asked for isn't that, we ask for it and wait for the next `Configure`; once it is, we
/// allocate buffers of the physical size where they are lacking, and present a frame.
///
/// `Err` where a height or a buffer size does not fit 32 bits; nothing is changed then.
pub fn on_configure<N: Scalar>(
    s: &mut MechanixKeyboardState<N>,
    serial: u32,
    width: u32,
) -> (outcome: Result<ConfigureOutcome, SizeOverflow>)
    requires
        old(s).wf(),
    ensures
        final(s).wf(),
        *final(s) == (MechanixKeyboardState { window: final(s).window, ..*old(s) }),
        (outcome matches Ok(o) && o.alloc is Some) ==> (final(s).window matches Some(window)
            && window.logical_width != 0 && window.logical_height != 0),
        old(s).globals.dmabuf is None || old(s).shown() is None || old(s).window is None
            ==> (outcome matches Ok(o) && o.only(Seq::empty())) && *final(s) == *old(s),
        forall|m: Arithmetic<N>| #[trigger]
            crate::scalar::computes(m) ==> old(s).configured(
                m,
                serial,
                width,
                outcome,
                final(s).window,
            ),
{
    let mut requests: Vec<SurfaceRequest> = Vec::new();
    assert(requests@ =~= Seq::empty());
    if s.globals.dmabuf.is_none() {
        return Ok(ConfigureOutcome { requests, alloc: None, render: false });
    }
    let scale: i32 = s.scale;
    let (view_w, view_h) = match s.current_view() {
        Some(view) => (view.width(), view.height()),
        None => return Ok(ConfigureOutcome { requests, alloc: None, render: false }),
    };
    match &mut s.window {
        None => Ok(ConfigureOutcome { requests, alloc: None, render: false }),
        Some(window) => {
            if !view_w.is_positive() {
                return Ok(ConfigureOutcome { requests, alloc: None, render: false });
            }
            let logical_w: u32 = if width != 0 {
                width
            } else if window.logical_width != 0 {
                window.logical_width
            } else {
                1
            };
            // Shown: aspect-locked keyboard height plus the Handle. Hidden: Handle only,
            // a fixed height that never depends on the granted width.
            let desired_h: u32 = if window.visible {
                let kb_h: u32 = view_h.times(N::from_u32(logical_w)).over(view_w).rounded();
                if kb_h == 0 {
                    window.logical_width = logical_w;
                    requests.push(SurfaceRequest::AckConfigure(serial));
                    assert(requests@ =~= seq![SurfaceRequest::AckConfigure(serial)]);
                    return Ok(ConfigureOutcome { requests, alloc: None, render: false });
                }
                match kb_h.checked_add(HANDLE_HEIGHT) {
                    Some(h) => h,
                    None => return Err(SizeOverflow),
                }
            } else {
                HANDLE_HEIGHT
            };
            requests.push(SurfaceRequest::AckConfigure(serial));
            if window.requested_height != desired_h {
                // Ask for the height this visibility state wants and wait for the next
                // Configure.
                window.logical_width = logical_w;
                window.requested_height = desired_h;
                requests.push(SurfaceRequest::SetSize { width: 0, height: desired_h });
                requests.push(SurfaceRequest::Commit);
                assert(requests@ =~= seq![
                    SurfaceRequest::AckConfigure(serial),
                    SurfaceRequest::SetSize { width: 0, height: desired_h },
                    SurfaceRequest::Commit,
                ]);
                return Ok(ConfigureOutcome { requests, alloc: None, render: false });
            }
            // (Re)allocate buffers whenever their size changes — at first map, and on
            // every visibility toggle that resizes the bar.
            let (buf_w, buf_h): (u32, u32) = match (
                logical_w.checked_mul(scale as u32),
                desired_h.checked_mul(scale as u32),
            ) {
                (Some(w), Some(h)) => (w, h),
                _ => return Err(SizeOverflow),
            };
            window.logical_width = logical_w;
            if window.slots.is_none() || window.physical_width != buf_w || window.physical_height
                != buf_h {
                window.logical_height = desired_h;
                window.physical_width = buf_w;
                window.physical_height = buf_h;
                requests.push(SurfaceRequest::SetBufferScale(scale));
                assert(requests@ =~= seq![
                    SurfaceRequest::AckConfigure(serial),
                    SurfaceRequest::SetBufferScale(scale),
                ]);
                Ok(
                    ConfigureOutcome {
                        requests,
                        alloc: Some(BufferSize { width: buf_w, height: buf_h }),
                        render: true,
                    },
                )
            } else {
                assert(requests@ =~= seq![SurfaceRequest::AckConfigure(serial)]);
                Ok(ConfigureOutcome { requests, alloc: None, render: true })
            }
        },
    }
}

impl<N> MechanixKeyboardState<N> {
    /// Asking for a height settles it: when the next configure event grants the same
    /// width and the request went through, the bar presents a frame of that height.
    pub proof fn lemma_requested_height_is_presented(
        &self,
        next: &MechanixKeyboardState<N>,
        m: Arithmetic<N>,
        serial: u32,
        width: u32,
        outcome: Result<ConfigureOutcome, SizeOverflow>,
        height: int,
    )
        requires
            self.configure_plan(m, width) == (ConfigurePlan::Request { height }),
            outcome is Ok,
            self.configured(m, serial, width, outcome, next.window),
            *next == (MechanixKeyboardState { window: next.window, ..*self }),
        ensures
            next.configure_plan(m, width) == (ConfigurePlan::Present { height }),
    {
    }

    /// The reserved zone never changes: no configure event asks for another, so toggling
    /// the bar does not move other clients.
    pub proof fn lemma_zone_is_kept(
        &self,
        m: Arithmetic<N>,
        serial: u32,
        width: u32,
        outcome: ConfigureOutcome,
        next: Option<WindowState>,
        i: int,
    )
        requires
            self.configured(m, serial, width, Ok(outcome), next),
            0 <= i < outcome.requests@.len(),
        ensures
            !(outcome.requests@[i] is SetExclusiveZone),
    {
    }

    /// Whether the bar can be toggled: its size and its view are known.
    pub open spec fn can_toggle(&self, m: Arithmetic<N>) -> bool {
        &&& self.window matches Some(window) && window.logical_width > 0
        &&& self.shown() matches Some(view) && (m.is_positive)(view.model().extent_x(m))
    }

    /// How tall the bar is to be once its visibility is flipped.
    pub open spec fn flipped_height(&self, m: Arithmetic<N>) -> int {
        let window = self.window->0;
        bar_height(m, self.shown()->0.model(), !window.visible, window.logical_width)
    }

    /// What flipping the visibility of the bar does.
    pub open spec fn flipped(
        &self,
        m: Arithmetic<N>,
        outcome: Result<Vec<SurfaceRequest>, SizeOverflow>,
        next: Option<WindowState>,
    ) -> bool {
        let height = self.flipped_height(m);
        if !self.can_toggle(m) {
            &&& outcome matches Ok(requests) && requests@ == Seq::<SurfaceRequest>::empty()
            &&& next == self.window
        } else if height > u32::MAX {
            &&& outcome is Err
            &&& next == self.window
        } else {
            &&& outcome matches Ok(requests) && requests@ == seq![
                SurfaceRequest::SetSize { width: 0, height: height as u32 },
                SurfaceRequest::Commit,
            ]
            &&& next == Some(
                WindowState {
                    visible: !self.window->0.visible,
                    requested_height: height as u32,
                    ..self.window->0
                },
            )
        }
    }

    /// Flipping keeps the reserved zone as well: it asks for a size, and for no zone.
    pub proof fn lemma_flipping_keeps_the_zone(
        &self,
        m: Arithmetic<N>,
        requests: Vec<SurfaceRequest>,
        next: Option<WindowState>,
        i: int,
    )
        requires
            self.flipped(m, Ok(requests), next),
            0 <= i < requests@.len(),
        ensures
            !(requests@[i] is SetExclusiveZone),
    {
    }

    /// Flipping twice gives back the bar as it was, the height that it asks for being
    /// the one of its visibility.
    pub proof fn lemma_flipping_twice_restores(
        &self,
        between: &MechanixKeyboardState<N>,
        after: &MechanixKeyboardState<N>,
        m: Arithmetic<N>,
        first: Vec<SurfaceRequest>,
        second: Vec<SurfaceRequest>,
    )
        requires
            self.can_toggle(m),
            self.window->0.requested_height == bar_height(
                m,
                self.shown()->0.model(),
                self.window->0.visible,
                self.window->0.logical_width,
            ),
            self.flipped(m, Ok(first), between.window),
            *between == (MechanixKeyboardState { window: between.window, ..*self }),
            between.flipped(m, Ok(second), after.window),
            *after == (MechanixKeyboardState { window: after.window, ..*between }),
        ensures
            *after == *self,
    {
    }

    /// Where the Handle is in surface-local coordinates: the bottom band, full width.
    pub open spec fn handle_of(&self, m: Arithmetic<N>) -> Option<Rect<N>> {
        match self.window {
            Some(window) => if window.logical_width == 0 || window.logical_height == 0 {
                None
            } else {
                Some(
                    Rect {
                        x: m.zero(),
                        y: (m.minus)(
                            (m.from_u32)(window.logical_height),
                            (m.from_u32)(HANDLE_HEIGHT),
                        ),
                        width: (m.from_u32)(window.logical_width),
                        height: (m.from_u32)(HANDLE_HEIGHT),
                    },
                )
            },
            None => None,
        }
    }

    /// Whether the shown view is mapped onto a surface that has a width.
    pub open spec fn is_mapped(&self, m: Arithmetic<N>) -> bool {
        &&& self.window matches Some(window) && window.logical_width != 0
        &&& self.shown() matches Some(view) && (m.is_positive)(view.model().extent_x(m))
    }

    /// How many surface-local units a layout unit has.
    pub open spec fn factor(&self, m: Arithmetic<N>) -> N {
        (m.over)(
            (m.from_u32)(self.window->0.logical_width),
            self.shown()->0.model().extent_x(m),
        )
    }
}

/// Flip Bar visibility and re-request the matching bar height. The resulting `Configure`
/// reallocates buffers at the new size and repaints.
///
/// `Err` where the height does not fit 32 bits; nothing is changed then.
pub fn toggle_visibility<N: Scalar>(s: &mut MechanixKeyboardState<N>) -> (outcome: Result<
    Vec<SurfaceRequest>,
    SizeOverflow,
>)
    requires
        old(s).wf(),
    ensures
        final(s).wf(),
        *final(s) == (MechanixKeyboardState { window: final(s).window, ..*old(s) }),
        forall|m: Arithmetic<N>| #[trigger]
            crate::scalar::computes(m) ==> old(s).flipped(m, outcome, final(s).window),
{
    let mut requests: Vec<SurfaceRequest> = Vec::new();
    assert(requests@ =~= Seq::empty());
    let (view_w, view_h) = match s.current_view() {
        Some(view) => (view.width(), view.height()),
        None => return Ok(requests),
    };
    match &mut s.window {
        None => Ok(requests),
        Some(window) => {
            if window.logical_width == 0 || !view_w.is_positive() {
                return Ok(requests);
            }
            let target: u32 = if !window.visible {
                let kb_h: u32 = view_h.times(N::from_u32(window.logical_width)).over(
                    view_w,
                ).rounded();
                match kb_h.checked_add(HANDLE_HEIGHT) {
                    Some(h) => h,
                    None => return Err(SizeOverflow),
                }
            } else {
                HANDLE_HEIGHT
            };
            window.visible = !window.visible;
            window.requested_height = target;
            requests.push(SurfaceRequest::SetSize { width: 0, height: target });
            requests.push(SurfaceRequest::Commit);
            assert(requests@ =~= seq![
                SurfaceRequest::SetSize { width: 0, height: target },
                SurfaceRequest::Commit,
            ]);
            Ok(requests)
        },
    }
}

/// The Handle's rect in surface-local coordinates: the bottom `HANDLE_HEIGHT` band, full
/// width. `None` until the surface size is known. When hidden the bar is only this tall,
/// so the Handle is the whole surface.
pub fn handle_rect<N: Scalar>(s: &MechanixKeyboardState<N>) -> (rect: Option<Rect<N>>)
    ensures
        rect is Some <==> s.window is Some && s.window->0.logical_width != 0
            && s.window->0.logical_height != 0,
        forall|m: Arithmetic<N>| #[trigger] crate::scalar::computes(m) ==> rect == s.handle_of(m),
{
    match &s.window {
        Some(window) => {
            if window.logical_width == 0 || window.logical_height == 0 {
                return None;
            }
            let h = N::from_u32(HANDLE_HEIGHT);
            Some(
                Rect {
                    x: N::from_u32(0),
                    y: N::from_u32(window.logical_height).minus(h),
                    width: N::from_u32(window.logical_width),
                    height: h,
                },
            )
        },
        None => None,
    }
}

/// The shown view and the factor mapping its logical layout units onto surface-local
/// (input) coordinates. Returns `None` until the keymap and surface width are known.
pub fn view_and_factor<N: Scalar>(s: &MechanixKeyboardState<N>) -> (found: Option<(&View<N>, N)>)
    ensures
        found matches Some((view, _)) ==> s.shown() == Some(view),
        forall|m: Arithmetic<N>| #[trigger]
            crate::scalar::computes(m) ==> (found is Some <==> s.is_mapped(m)),
        forall|m: Arithmetic<N>| #[trigger]
            crate::scalar::computes(m) ==> (found matches Some((_, f)) ==> f == s.factor(m)),
{
    let view = match s.current_view() {
        Some(view) => view,
        None => return None,
    };
    let view_w = view.width();
    match &s.window {
        Some(window) => {
            if window.logical_width == 0 || !view_w.is_positive() {
                return None;
            }
            Some((view, N::from_u32(window.logical_width).over(view_w)))
        },
        None => None,
    }
}

} // verus!
