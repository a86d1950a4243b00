//! How tall the bar is and how large its buffers are, in real numbers.

use vstd::prelude::*;

use crate::laws::{descends, has_no_width, spans};
use crate::sizing::{ConfigureOutcome, SizeOverflow};
use crate::state::MechanixKeyboardState;
use crate::window::{SurfaceRequest, WindowState};

verus! {

/// Whether `height` is the height of a bar: the Handle's 40 where it is hidden; where it is
/// shown, 40 and a whole number that is at most one half away from the height that keys
/// `wide` by `tall` have when they are `width` wide.
pub open spec fn fits(height: int, visible: bool, width: u32, wide: real, tall: real) -> bool {
    if visible {
        &&& height >= 40
        &&& (height - 40) as real <= tall * (width as real) / wide + 1real / 2real
        &&& (height - 40) as real >= tall * (width as real) / wide - 1real / 2real
    } else {
        height == 40
    }
}

/// The nearest whole number is at most one half away, where a `u32` can hold it.
pub proof fn lemma_nearest_is_near(a: real)
    requires
        a >= 0real,
        crate::flow::nearest(a) < u32::MAX,
    ensures
        (crate::flow::nearest(a) as int) as real <= a + 1real / 2real,
        (crate::flow::nearest(a) as int) as real >= a - 1real / 2real,
{
}

proof fn lemma_fits(
    s: MechanixKeyboardState<real>,
    visible: bool,
    width: u32,
    wide: real,
    tall: real,
)
    requires
        s.shown() is Some,
        spans(s.shown()->0.model().all_keys(), wide),
        descends(s.shown()->0.model().all_keys(), tall),
        crate::sizing::bar_height(
            crate::flow::exact(),
            s.shown()->0.model(),
            visible,
            width,
        ) <= u32::MAX,
    ensures
        fits(
            crate::sizing::bar_height(
                crate::flow::exact(),
                s.shown()->0.model(),
                visible,
                width,
            ),
            visible,
            width,
            wide,
            tall,
        ),
{
    let view = s.shown()->0.model();
    crate::laws::lemma_width_is_where_keys_end(view, wide);
    crate::laws::lemma_height_is_where_keys_end(view, tall);
    let w = width as real;
    let a = tall * w / wide;
    assert(a >= 0real) by (nonlinear_arith)
        requires
            tall >= 0real,
            w >= 0real,
            wide > 0real,
            a == tall * w / wide,
    ;
    if visible {
        assert(crate::sizing::keyboard_height(crate::flow::exact(), view, width)
            == crate::flow::nearest(a));
        lemma_nearest_is_near(a);
    }
}

/// Flipping the bar shows it where it was hidden and hides it where it was shown, and asks
/// for the height that it then has: once, at the width that the compositor chooses, and
/// committed. Nothing else of the window changes.
pub proof fn lemma_flipping_asks_for_the_height_that_fits(
    s: MechanixKeyboardState<real>,
    requests: Vec<SurfaceRequest>,
    next: Option<WindowState>,
    wide: real,
    tall: real,
)
    requires
        s.flipped(crate::flow::exact(), Ok(requests), next),
        s.window is Some,
        s.window->0.logical_width > 0,
        s.shown() is Some,
        spans(s.shown()->0.model().all_keys(), wide),
        descends(s.shown()->0.model().all_keys(), tall),
    ensures
        next matches Some(window) && window == (WindowState {
            visible: window.visible,
            requested_height: window.requested_height,
            ..s.window->0
        }) && window.visible == !s.window->0.visible && requests@ == seq![
            SurfaceRequest::SetSize { width: 0, height: window.requested_height },
            SurfaceRequest::Commit,
        ] && fits(
            window.requested_height as int,
            window.visible,
            window.logical_width,
            wide,
            tall,
        ),
{
    crate::laws::lemma_width_is_where_keys_end(s.shown()->0.model(), wide);
    lemma_fits(s, !s.window->0.visible, s.window->0.logical_width, wide, tall);
}

/// A bar is not flipped only where it would be shown and be taller than a `u32` can say.
pub proof fn lemma_only_a_height_that_does_not_fit_is_refused(
    s: MechanixKeyboardState<real>,
    error: SizeOverflow,
    next: Option<WindowState>,
    wide: real,
    tall: real,
)
    requires
        s.flipped(crate::flow::exact(), Err(error), next),
        s.window is Some,
        s.shown() is Some,
        spans(s.shown()->0.model().all_keys(), wide),
        descends(s.shown()->0.model().all_keys(), tall),
    ensures
        next == s.window,
        !s.window->0.visible,
        tall * (s.window->0.logical_width as real) / wide + 41real > (u32::MAX as int) as real,
{
    let view = s.shown()->0.model();
    crate::laws::lemma_width_is_where_keys_end(view, wide);
    crate::laws::lemma_height_is_where_keys_end(view, tall);
    let w = s.window->0.logical_width as real;
    let a = tall * w / wide;
    assert(a >= 0real) by (nonlinear_arith)
        requires
            tall >= 0real,
            w >= 0real,
            wide > 0real,
            a == tall * w / wide,
    ;
    assert(crate::sizing::keyboard_height(
        crate::flow::exact(),
        view,
        s.window->0.logical_width,
    ) == crate::flow::nearest(a));
    if crate::flow::nearest(a) < u32::MAX {
        lemma_nearest_is_near(a);
    }
}

/// Before its size or its view is known, the bar cannot be flipped, and nothing happens.
pub proof fn lemma_unsized_bar_is_not_flipped(
    s: MechanixKeyboardState<real>,
    outcome: Result<Vec<SurfaceRequest>, SizeOverflow>,
    next: Option<WindowState>,
)
    requires
        s.flipped(crate::flow::exact(), outcome, next),
        s.window is None || s.window->0.logical_width == 0 || s.shown() is None || has_no_width(
            s.shown()->0.model().all_keys(),
        ),
    ensures
        outcome matches Ok(requests) && requests@.len() == 0,
        next == s.window,
{
    if s.shown() is Some && has_no_width(s.shown()->0.model().all_keys()) {
        crate::laws::lemma_width_of_no_keys(s.shown()->0.model());
    }
}

/// A configure event is acknowledged first of all. It grants the bar a width: the one that it
/// says, or the one that the bar has where it says 0, or 1 where the bar has none. The bar
/// then either asks for the height that fits it, because it last asked for another; or has
/// that height and presents a frame, in buffers of that size at the output's scale; or, where
/// its keys would be flattened to nothing, does neither.
pub proof fn lemma_configure_event_settles_the_size(
    s: MechanixKeyboardState<real>,
    serial: u32,
    width: u32,
    outcome: ConfigureOutcome,
    next: Option<WindowState>,
    wide: real,
    tall: real,
)
    requires
        s.wf(),
        s.configured(crate::flow::exact(), serial, width, Ok(outcome), next),
        s.globals.dmabuf is Some,
        s.window is Some,
        s.shown() is Some,
        spans(s.shown()->0.model().all_keys(), wide),
        descends(s.shown()->0.model().all_keys(), tall),
    ensures
        next is Some,
        outcome.requests@.len() > 0 && outcome.requests@[0] == SurfaceRequest::AckConfigure(serial),
        next->0.logical_width == (if width != 0 {
            width
        } else if s.window->0.logical_width != 0 {
            s.window->0.logical_width
        } else {
            1
        }),
        next->0 == (WindowState {
            logical_width: next->0.logical_width,
            logical_height: next->0.logical_height,
            physical_width: next->0.physical_width,
            physical_height: next->0.physical_height,
            requested_height: next->0.requested_height,
            ..s.window->0
        }),
        outcome.render ==> {
            &&& next->0.requested_height == s.window->0.requested_height
            &&& fits(
                next->0.requested_height as int,
                next->0.visible,
                next->0.logical_width,
                wide,
                tall,
            )
            &&& next->0.physical_width == next->0.logical_width * s.scale
            &&& next->0.physical_height == next->0.requested_height * s.scale
        },
        outcome.render ==> match outcome.alloc {
            Some(size) => {
                &&& size.width == next->0.physical_width && size.height == next->0.physical_height
                &&& next->0.logical_height == next->0.requested_height
                &&& s.window->0.slots is None || s.window->0.physical_width != size.width
                    || s.window->0.physical_height != size.height
                &&& outcome.requests@ == seq![
                    SurfaceRequest::AckConfigure(serial),
                    SurfaceRequest::SetBufferScale(s.scale),
                ]
            },
            None => {
                &&& s.window->0.slots is Some
                &&& next->0.physical_width == s.window->0.physical_width
                &&& next->0.physical_height == s.window->0.physical_height
                &&& next->0.logical_height == s.window->0.logical_height
                &&& outcome.requests@.len() == 1
            },
        },
        !outcome.render && outcome.requests@.len() > 1 ==> {
            &&& outcome.alloc is None
            &&& outcome.requests@ == seq![
                SurfaceRequest::AckConfigure(serial),
                SurfaceRequest::SetSize { width: 0, height: next->0.requested_height },
                SurfaceRequest::Commit,
            ]
            &&& next->0.requested_height != s.window->0.requested_height
            &&& fits(
                next->0.requested_height as int,
                next->0.visible,
                next->0.logical_width,
                wide,
                tall,
            )
        },
        !outcome.render && outcome.requests@.len() == 1 ==> {
            &&& outcome.alloc is None
            &&& next->0.visible
            &&& tall * (next->0.logical_width as real) / wide < 1real / 2real
        },
{
    let m = crate::flow::exact();
    let view = s.shown()->0.model();
    let window = s.window->0;
    crate::laws::lemma_width_is_where_keys_end(view, wide);
    crate::laws::lemma_height_is_where_keys_end(view, tall);
    let granted = crate::sizing::granted_width(window, width);
    let w = granted as real;
    let a = tall * w / wide;
    assert(a >= 0real) by (nonlinear_arith)
        requires
            tall >= 0real,
            w >= 0real,
            wide > 0real,
            a == tall * w / wide,
    ;
    assert(crate::sizing::keyboard_height(m, view, granted) == crate::flow::nearest(a));
    if crate::flow::nearest(a) < u32::MAX {
        lemma_nearest_is_near(a);
    }
    let height = crate::sizing::bar_height(m, view, window.visible, granted);
    if height <= u32::MAX {
        lemma_fits(s, window.visible, granted, wide, tall);
    }
    let scale = s.scale as int;
    assert(granted * scale >= 0 && height * scale >= 0) by (nonlinear_arith)
        requires
            granted >= 0,
            height >= 0,
            scale >= 1,
    ;
}

/// Without a way to make buffers, a view or a window, a configure event is let pass.
pub proof fn lemma_configure_event_waits_for_what_it_needs(
    s: MechanixKeyboardState<real>,
    serial: u32,
    width: u32,
    outcome: Result<ConfigureOutcome, SizeOverflow>,
    next: Option<WindowState>,
)
    requires
        s.configured(crate::flow::exact(), serial, width, outcome, next),
        s.globals.dmabuf is None || s.window is None || s.shown() is None || has_no_width(
            s.shown()->0.model().all_keys(),
        ),
    ensures
        outcome matches Ok(o) && o.requests@.len() == 0 && o.alloc is None && !o.render,
        next == s.window,
{
    if s.shown() is Some && has_no_width(s.shown()->0.model().all_keys()) {
        crate::laws::lemma_width_of_no_keys(s.shown()->0.model());
    }
}

/// A configure event is refused only where the bar's height, or a side of its buffers, is more
/// than a `u32` can say; and then nothing changes.
pub proof fn lemma_only_a_size_that_does_not_fit_is_refused(
    s: MechanixKeyboardState<real>,
    serial: u32,
    width: u32,
    error: SizeOverflow,
    next: Option<WindowState>,
    wide: real,
    tall: real,
)
    requires
        s.wf(),
        s.configured(crate::flow::exact(), serial, width, Err(error), next),
        s.window is Some,
        s.shown() is Some,
        spans(s.shown()->0.model().all_keys(), wide),
        descends(s.shown()->0.model().all_keys(), tall),
    ensures
        next == s.window,
        ({
            let window = s.window->0;
            let most = (u32::MAX as int) as real;
            let scale = s.scale as real;
            let w = (if width != 0 {
                width
            } else if window.logical_width != 0 {
                window.logical_width
            } else {
                1
            }) as real;
            ||| w * scale > most
            ||| window.visible && (tall * w / wide + 41real) * scale > most
            ||| !window.visible && 40real * scale > most
        }),
{
    let m = crate::flow::exact();
    let view = s.shown()->0.model();
    let window = s.window->0;
    crate::laws::lemma_width_is_where_keys_end(view, wide);
    crate::laws::lemma_height_is_where_keys_end(view, tall);
    let granted = crate::sizing::granted_width(window, width);
    let w = granted as real;
    let most = (u32::MAX as int) as real;
    let g = s.scale as int;
    let scale = s.scale as real;
    let a = tall * w / wide;
    assert(a >= 0real) by (nonlinear_arith)
        requires
            tall >= 0real,
            w >= 0real,
            wide > 0real,
            a == tall * w / wide,
    ;
    assert(crate::sizing::keyboard_height(m, view, granted) == crate::flow::nearest(a));
    if crate::flow::nearest(a) < u32::MAX {
        lemma_nearest_is_near(a);
    } else {
        assert(a + 1real / 2real >= most);
    }
    let height = crate::sizing::bar_height(m, view, window.visible, granted);
    let high = height as real;
    assert((granted * g) as real == w * scale) by (nonlinear_arith)
        requires
            w == granted as real,
            scale == g as real,
    ;
    assert((height * g) as real == high * scale) by (nonlinear_arith)
        requires
            high == height as real,
            scale == g as real,
    ;
    if window.visible {
        assert(a + 41real > high || a + 41real > most);
        assert((a + 41real) * scale >= a + 41real && (a + 41real > high ==> (a + 41real) * scale
            >= high * scale)) by (nonlinear_arith)
            requires
                a >= 0real,
                scale >= 1real,
        ;
    }
}

/// The Handle is the band of 40 units at the bottom of the surface, from its left edge to its
/// right.
pub proof fn lemma_handle_is_the_bottom_band(s: MechanixKeyboardState<real>)
    requires
        s.window is Some,
        s.window->0.logical_width != 0,
        s.window->0.logical_height != 0,
    ensures
        s.handle_of(crate::flow::exact()) matches Some(handle) && handle.x == 0real
            && handle.height == 40real && handle.width == s.window->0.logical_width as real
            && handle.y + 40real == s.window->0.logical_height as real,
{
}

/// Once a shown bar has the height that fits, its lowest key ends within half a unit of where
/// the Handle begins, above it or below; and no key ends lower.
pub proof fn lemma_lowest_key_ends_at_the_handle(
    s: MechanixKeyboardState<real>,
    wide: real,
    tall: real,
)
    requires
        s.window is Some,
        s.window->0.logical_width != 0,
        s.window->0.logical_height != 0,
        s.shown() is Some,
        spans(s.shown()->0.model().all_keys(), wide),
        descends(s.shown()->0.model().all_keys(), tall),
        fits(s.window->0.logical_height as int, true, s.window->0.logical_width, wide, tall),
    ensures
        ({
            let keys = s.shown()->0.model().all_keys();
            let f = s.factor(crate::flow::exact());
            let top = s.handle_of(crate::flow::exact())->0.y;
            &&& forall|i: int|
                0 <= i < keys.len() ==> ((#[trigger] keys[i]).rect.y + keys[i].rect.height) * f
                    <= top + 1real / 2real
            &&& exists|i: int|
                0 <= i < keys.len() && ((#[trigger] keys[i]).rect.y + keys[i].rect.height) * f
                    >= top - 1real / 2real
        }),
{
    let view = s.shown()->0.model();
    let keys = view.all_keys();
    let w = s.window->0.logical_width as real;
    let f = s.factor(crate::flow::exact());
    let top = s.handle_of(crate::flow::exact())->0.y;
    crate::laws::lemma_width_is_where_keys_end(view, wide);
    assert(f == w / wide);
    assert(f >= 0real && tall * f == tall * w / wide) by (nonlinear_arith)
        requires
            w >= 0real,
            wide > 0real,
            f == w / wide,
    ;
    assert((s.window->0.logical_height as int - 40) as real == top);
    assert forall|i: int| 0 <= i < keys.len() implies ((#[trigger] keys[i]).rect.y
        + keys[i].rect.height) * f <= top + 1real / 2real by {
        let end = keys[i].rect.y + keys[i].rect.height;
        assert(end * f <= tall * f) by (nonlinear_arith)
            requires
                end <= tall,
                f >= 0real,
        ;
    }
    let i = choose|i: int|
        0 <= i < keys.len() && (#[trigger] keys[i]).rect.y + keys[i].rect.height == tall;
    assert((keys[i].rect.y + keys[i].rect.height) * f >= top - 1real / 2real);
}

} // verus!
