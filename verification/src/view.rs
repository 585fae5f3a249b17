//! The shared view state — committed region, undo history, live selection and
//! iteration count — and the transitions that pointer, touch, keyboard and
//! scroll events drive it through.

use vstd::prelude::*;
use crate::coord::map_spec;
use crate::num::{clamp, clamp_coord};
use crate::region::{aspect_locked_br, aspect_locked_corner, default_region, fix_aspect_region,
    fix_aspect_spec, normalize, normalize_spec, region_ok, Region, Vec2I};

verus! {

/// Phase of a touch event.
#[derive(Clone, Copy, PartialEq, Eq, Structural, Debug)]
pub enum TouchPhase {
    Started,
    Moved,
    Ended,
    Cancelled,
}

/// An input event as the state machine sees it: plain values handed over by
/// the windowing front end. Pixel positions are window coordinates.
#[derive(Clone, Copy, PartialEq, Eq, Structural, Debug)]
pub enum InputEvent {
    /// The pointer moved to pixel `(x, y)`.
    CursorMoved { x: i32, y: i32 },
    /// A touch changed phase at pixel `(x, y)`.
    Touch { phase: TouchPhase, x: i32, y: i32 },
    /// The primary (select/drag) button was pressed or released.
    Primary { pressed: bool },
    /// The secondary (back) button was released.
    SecondaryReleased,
    /// The aspect-lock modifier: held to drag without the aspect constraint.
    Shift { pressed: bool },
    /// Scroll notches: one per unit horizontally, ten per unit vertically.
    Scroll { dx: i32, dy: i32 },
    /// The reset key was released.
    ResetKey,
    /// The back key was released.
    BackKey,
    /// The fix-aspect key was released.
    FixAspectKey,
    /// The window was resized.
    Resized,
}

/// The mathematical model of the view state.
pub struct ViewSpec {
    pub history: Seq<Region>,
    pub draw_region: Region,
    pub select_region: Region,
    pub iterations: int,
    pub dragging: bool,
    pub shifting: bool,
}

impl ViewSpec {
    /// Every region the state holds lies within the coordinate range.
    pub open spec fn wf(self) -> bool {
        &&& region_ok(self.draw_region)
        &&& region_ok(self.select_region)
        &&& forall|i: int| 0 <= i < self.history.len() ==> region_ok(#[trigger] self.history[i])
    }
}

/// The fresh-start state: default region, empty history, 512 iterations.
pub open spec fn init_spec() -> ViewSpec {
    ViewSpec {
        history: Seq::empty(),
        draw_region: default_region(),
        select_region: default_region(),
        iterations: 512,
        dragging: false,
        shifting: false,
    }
}

/// The plane point under pixel `(px, py)` for viewport size `(vw, vh)` and
/// draw region `dr`: the affine remap of each axis independently.
pub open spec fn plane_cursor(dr: Region, px: int, py: int, vw: u32, vh: u32) -> Vec2I {
    Vec2I {
        x: clamp_coord(map_spec(px, 0, vw as int, dr.top_left.x as int, dr.bottom_right.x as int))
            as i64,
        y: clamp_coord(map_spec(py, 0, vh as int, dr.top_left.y as int, dr.bottom_right.y as int))
            as i64,
    }
}

/// Pointer movement. Idle: the selection anchor follows the pointer.
/// Dragging: the far corner follows the pointer, aspect-locked unless the
/// modifier is held.
pub open spec fn moved_spec(s: ViewSpec, px: int, py: int, vw: u32, vh: u32) -> ViewSpec {
    let cursor = plane_cursor(s.draw_region, px, py, vw, vh);
    if s.dragging {
        if s.shifting {
            ViewSpec {
                select_region: Region { top_left: s.select_region.top_left, bottom_right: cursor },
                ..s
            }
        } else {
            ViewSpec {
                select_region: Region {
                    top_left: s.select_region.top_left,
                    bottom_right: aspect_locked_br(s.select_region.top_left, cursor, vw, vh),
                },
                ..s
            }
        }
    } else {
        ViewSpec {
            select_region: Region {
                top_left: cursor,
                bottom_right: s.select_region.bottom_right,
            },
            ..s
        }
    }
}

/// Drag start: the selection collapses to a zero-size rectangle at its
/// anchor, and the state is dragging.
pub open spec fn press_spec(s: ViewSpec) -> ViewSpec {
    ViewSpec {
        dragging: true,
        select_region: Region {
            top_left: s.select_region.top_left,
            bottom_right: s.select_region.top_left,
        },
        ..s
    }
}

/// Drag commit: the selection is normalized and becomes the draw region; the
/// previous draw region is pushed onto the history.
pub open spec fn commit_spec(s: ViewSpec) -> ViewSpec {
    ViewSpec {
        dragging: false,
        history: s.history.push(s.draw_region),
        draw_region: normalize_spec(s.select_region),
        ..s
    }
}

/// Go back: pop the history into the draw region; a no-op on empty history.
pub open spec fn back_spec(s: ViewSpec) -> ViewSpec {
    if s.history.len() > 0 {
        ViewSpec { history: s.history.drop_last(), draw_region: s.history.last(), ..s }
    } else {
        s
    }
}

/// Reset: clear the history and restore the default region, refit to the
/// viewport aspect ratio.
pub open spec fn reset_spec(s: ViewSpec, vw: u32, vh: u32) -> ViewSpec {
    ViewSpec {
        history: Seq::empty(),
        draw_region: fix_aspect_spec(default_region(), vw, vh),
        ..s
    }
}

/// Fix-aspect: refit the draw region's width to the viewport aspect ratio.
pub open spec fn refit_spec(s: ViewSpec, vw: u32, vh: u32) -> ViewSpec {
    ViewSpec { draw_region: fix_aspect_spec(s.draw_region, vw, vh), ..s }
}

/// Scroll: one iteration per horizontal notch, ten per vertical notch,
/// saturating at the counter's bounds.
pub open spec fn scroll_spec(s: ViewSpec, dx: int, dy: int) -> ViewSpec {
    ViewSpec {
        iterations: clamp(s.iterations + dx + 10 * dy, i64::MIN as int, i64::MAX as int),
        ..s
    }
}

/// The aspect-lock modifier.
pub open spec fn shift_spec(s: ViewSpec, pressed: bool) -> ViewSpec {
    ViewSpec { shifting: pressed, ..s }
}

/// The transition an input event causes, for viewport size `(vw, vh)`.
pub open spec fn event_spec(s: ViewSpec, e: InputEvent, vw: u32, vh: u32) -> ViewSpec {
    match e {
        InputEvent::CursorMoved { x, y } => moved_spec(s, x as int, y as int, vw, vh),
        InputEvent::Touch { phase, x, y } => {
            let s1 = moved_spec(s, x as int, y as int, vw, vh);
            match phase {
                TouchPhase::Started => press_spec(s1),
                TouchPhase::Moved => s1,
                TouchPhase::Ended => commit_spec(s1),
                TouchPhase::Cancelled => commit_spec(s1),
            }
        },
        InputEvent::Primary { pressed } => if pressed {
            press_spec(s)
        } else {
            commit_spec(s)
        },
        InputEvent::SecondaryReleased => back_spec(s),
        InputEvent::Shift { pressed } => shift_spec(s, pressed),
        InputEvent::Scroll { dx, dy } => scroll_spec(s, dx as int, dy as int),
        InputEvent::ResetKey => reset_spec(s, vw, vh),
        InputEvent::BackKey => back_spec(s),
        InputEvent::FixAspectKey => refit_spec(s, vw, vh),
        InputEvent::Resized => refit_spec(s, vw, vh),
    }
}

/// A viewport dimension the arithmetic accepts: positive and within the
/// coordinate range.
pub open spec fn viewport_ok(v: u32) -> bool {
    1 <= v <= 0x8000_0000u32
}

/// The fixed-layout record handed to the rendering collaborator: the draw
/// region's corners, the displayed selection's corners, and the clamped
/// iteration count.
#[derive(Clone, Copy, PartialEq, Eq, Structural, Debug)]
pub struct UniformRegion {
    pub draw_top_left: Vec2I,
    pub draw_bottom_right: Vec2I,
    pub select_top_left: Vec2I,
    pub select_bottom_right: Vec2I,
    pub iterations: u32,
}

impl Default for UniformRegion {
    /// The payload of the fresh-start state.
    fn default() -> (u: UniformRegion)
        ensures
            u.draw_top_left == default_region().top_left,
            u.draw_bottom_right == default_region().bottom_right,
            u.select_top_left == default_region().top_left,
            u.select_bottom_right == default_region().bottom_right,
            u.iterations == 512u32,
    {
        let r = Region::default();
        UniformRegion {
            draw_top_left: r.top_left,
            draw_bottom_right: r.bottom_right,
            select_top_left: r.top_left,
            select_bottom_right: r.bottom_right,
            iterations: 512,
        }
    }
}

/// The shared view state, as the input path mutates it and the render path
/// reads it.
pub struct ViewState {
    pub history: Vec<Region>,
    pub draw_region: Region,
    pub select_region: Region,
    pub iterations: i64,
    pub dragging: bool,
    pub shifting: bool,
}

impl ViewState {
    /// The mathematical model of this state.
    pub open spec fn model(&self) -> ViewSpec {
        ViewSpec {
            history: self.history@,
            draw_region: self.draw_region,
            select_region: self.select_region,
            iterations: self.iterations as int,
            dragging: self.dragging,
            shifting: self.shifting,
        }
    }

    pub open spec fn wf(&self) -> bool {
        self.model().wf()
    }

    /// A fresh view state.
    pub fn new() -> (s: ViewState)
        ensures
            s.model() == init_spec(),
            s.wf(),
    {
        let s = ViewState {
            history: Vec::new(),
            draw_region: Region::default(),
            select_region: Region::default(),
            iterations: 512,
            dragging: false,
            shifting: false,
        };
        proof {
            assert(s.model() =~= init_spec());
        }
        s
    }

    /// Pointer movement at pixel `(px, py)` in a `(vw, vh)` viewport.
    pub fn moved(&mut self, px: i32, py: i32, vw: u32, vh: u32)
        requires
            old(self).wf(),
            viewport_ok(vw),
            viewport_ok(vh),
        ensures
            final(self).model() == moved_spec(old(self).model(), px as int, py as int, vw, vh),
            final(self).wf(),
    {
        let cx = crate::coord::map(
            px as i64,
            0,
            vw as i64,
            self.draw_region.top_left.x,
            self.draw_region.bottom_right.x,
        );
        let cy = crate::coord::map(
            py as i64,
            0,
            vh as i64,
            self.draw_region.top_left.y,
            self.draw_region.bottom_right.y,
        );
        let cursor = Vec2I { x: cx, y: cy };
        proof {
            assert(cursor == plane_cursor(
                old(self).model().draw_region,
                px as int,
                py as int,
                vw,
                vh,
            ));
        }
        if self.dragging {
            if self.shifting {
                self.select_region.bottom_right = cursor;
            } else {
                self.select_region.bottom_right = aspect_locked_corner(
                    self.select_region.top_left,
                    cursor,
                    vw,
                    vh,
                );
            }
        } else {
            self.select_region.top_left = cursor;
        }
        proof {
            assert(final(self).model() =~= moved_spec(
                old(self).model(),
                px as int,
                py as int,
                vw,
                vh,
            ));
        }
    }

    /// Drag start.
    pub fn press(&mut self)
        requires
            old(self).wf(),
        ensures
            final(self).model() == press_spec(old(self).model()),
            final(self).wf(),
    {
        self.dragging = true;
        self.select_region.bottom_right = self.select_region.top_left;
        proof {
            assert(final(self).model() =~= press_spec(old(self).model()));
        }
    }

    /// Drag commit.
    pub fn commit(&mut self)
        requires
            old(self).wf(),
        ensures
            final(self).model() == commit_spec(old(self).model()),
            final(self).wf(),
    {
        self.dragging = false;
        let normalized = normalize(self.select_region);
        self.history.push(self.draw_region);
        self.draw_region = normalized;
        proof {
            assert(final(self).model() =~= commit_spec(old(self).model()));
            let h = final(self).model().history;
            assert(forall|i: int| 0 <= i < h.len() ==> region_ok(#[trigger] h[i]));
        }
    }

    /// Go back to the region before the last committed zoom.
    pub fn back(&mut self)
        requires
            old(self).wf(),
        ensures
            final(self).model() == back_spec(old(self).model()),
            final(self).wf(),
    {
        match self.history.pop() {
            Some(last) => {
                self.draw_region = last;
            },
            None => {},
        }
        proof {
            assert(final(self).model() =~= back_spec(old(self).model()));
        }
    }

    /// Reset to the fresh-start view, refit to the viewport.
    pub fn reset(&mut self, vw: u32, vh: u32)
        requires
            old(self).wf(),
            viewport_ok(vw),
            viewport_ok(vh),
        ensures
            final(self).model() == reset_spec(old(self).model(), vw, vh),
            final(self).wf(),
    {
        self.history.clear();
        self.draw_region = Region::default();
        self.fix_aspect(vw, vh);
        proof {
            assert(final(self).model() =~= reset_spec(old(self).model(), vw, vh));
        }
    }

    /// Refit the draw region's width to the viewport aspect ratio.
    pub fn fix_aspect(&mut self, vw: u32, vh: u32)
        requires
            old(self).wf(),
            viewport_ok(vw),
            viewport_ok(vh),
        ensures
            final(self).model() == refit_spec(old(self).model(), vw, vh),
            final(self).wf(),
    {
        self.draw_region = fix_aspect_region(self.draw_region, vw, vh);
        proof {
            assert(final(self).model() =~= refit_spec(old(self).model(), vw, vh));
        }
    }

    /// The aspect-lock modifier.
    pub fn set_shift(&mut self, pressed: bool)
        requires
            old(self).wf(),
        ensures
            final(self).model() == shift_spec(old(self).model(), pressed),
            final(self).wf(),
    {
        self.shifting = pressed;
        proof {
            assert(final(self).model() =~= shift_spec(old(self).model(), pressed));
        }
    }

    /// Scroll: adjust the iteration count by whole notches, saturating.
    pub fn scroll(&mut self, dx: i32, dy: i32)
        requires
            old(self).wf(),
        ensures
            final(self).model() == scroll_spec(old(self).model(), dx as int, dy as int),
            final(self).wf(),
    {
        let v: i128 = self.iterations as i128 + dx as i128 + 10 * dy as i128;
        self.iterations = if v > i64::MAX as i128 {
            i64::MAX
        } else if v < i64::MIN as i128 {
            i64::MIN
        } else {
            v as i64
        };
        proof {
            assert(final(self).model() =~= scroll_spec(old(self).model(), dx as int, dy as int));
        }
    }

    /// The region the renderer must display: the live selection while a
    /// drag is in progress, else the committed draw region.
    pub fn current_display_region(&self) -> (r: Region)
        ensures
            r == if self.dragging {
                self.select_region
            } else {
                self.draw_region
            },
    {
        if self.dragging {
            self.select_region
        } else {
            self.draw_region
        }
    }

    /// An internally consistent snapshot for the rendering path: the draw
    /// region, the region to display (the live selection while dragging,
    /// else the draw region), and the iteration count clamped to be
    /// nonnegative.
    pub fn uniform_snapshot(&self) -> (u: UniformRegion)
        ensures
            u.draw_top_left == self.draw_region.top_left,
            u.draw_bottom_right == self.draw_region.bottom_right,
            u.select_top_left == (if self.dragging {
                self.select_region
            } else {
                self.draw_region
            }).top_left,
            u.select_bottom_right == (if self.dragging {
                self.select_region
            } else {
                self.draw_region
            }).bottom_right,
            u.iterations as int == clamp(self.iterations as int, 0, u32::MAX as int),
    {
        let sel = if self.dragging {
            self.select_region
        } else {
            self.draw_region
        };
        let iterations: u32 = if self.iterations < 0 {
            0
        } else if self.iterations > u32::MAX as i64 {
            u32::MAX
        } else {
            self.iterations as u32
        };
        UniformRegion {
            draw_top_left: self.draw_region.top_left,
            draw_bottom_right: self.draw_region.bottom_right,
            select_top_left: sel.top_left,
            select_bottom_right: sel.bottom_right,
            iterations,
        }
    }

    /// Feed one input event through the state machine.
    pub fn event(&mut self, e: InputEvent, vw: u32, vh: u32)
        requires
            old(self).wf(),
            viewport_ok(vw),
            viewport_ok(vh),
        ensures
            final(self).model() == event_spec(old(self).model(), e, vw, vh),
            final(self).wf(),
    {
        match e {
            InputEvent::CursorMoved { x, y } => {
                self.moved(x, y, vw, vh);
            },
            InputEvent::Touch { phase, x, y } => {
                self.moved(x, y, vw, vh);
                match phase {
                    TouchPhase::Started => self.press(),
                    TouchPhase::Moved => {},
                    TouchPhase::Ended => self.commit(),
                    TouchPhase::Cancelled => self.commit(),
                }
            },
            InputEvent::Primary { pressed } => {
                if pressed {
                    self.press();
                } else {
                    self.commit();
                }
            },
            InputEvent::SecondaryReleased => {
                self.back();
            },
            InputEvent::Shift { pressed } => {
                self.set_shift(pressed);
            },
            InputEvent::Scroll { dx, dy } => {
                self.scroll(dx, dy);
            },
            InputEvent::ResetKey => {
                self.reset(vw, vh);
            },
            InputEvent::BackKey => {
                self.back();
            },
            InputEvent::FixAspectKey => {
                self.fix_aspect(vw, vh);
            },
            InputEvent::Resized => {
                self.fix_aspect(vw, vh);
            },
        }
    }
}

/// Committing a drag whose selection runs from plane point `a` to plane
/// point `b` yields a draw region whose `top_left` is the componentwise
/// minimum and whose `bottom_right` is the componentwise maximum of the two.
pub proof fn lemma_commit_region_normalized(s: ViewSpec, a: Vec2I, b: Vec2I)
    requires
        s.select_region == (Region { top_left: a, bottom_right: b }),
    ensures
        commit_spec(s).draw_region.top_left.x == if a.x <= b.x {
            a.x
        } else {
            b.x
        },
        commit_spec(s).draw_region.top_left.y == if a.y <= b.y {
            a.y
        } else {
            b.y
        },
        commit_spec(s).draw_region.bottom_right.x == if a.x <= b.x {
            b.x
        } else {
            a.x
        },
        commit_spec(s).draw_region.bottom_right.y == if a.y <= b.y {
            b.y
        } else {
            a.y
        },
        commit_spec(s).draw_region.top_left.x <= commit_spec(s).draw_region.bottom_right.x,
        commit_spec(s).draw_region.top_left.y <= commit_spec(s).draw_region.bottom_right.y,
{
    crate::region::lemma_normalize_min_max(a, b);
}

/// With the aspect lock engaged — the selection's far corner is the
/// aspect-locked corner for some cursor point — committing the drag yields
/// a draw region whose width and height stand in the viewport's ratio
/// `num / den` to within one unit of width:
/// `den * width <= num * height < den * (width + 1)`. Drags whose locked
/// corner would be clamped at the coordinate range are excluded.
pub proof fn lemma_aspect_lock_commit_ratio(s: ViewSpec, cursor: Vec2I, num: u32, den: u32)
    requires
        den > 0,
        s.select_region.bottom_right == aspect_locked_br(
            s.select_region.top_left,
            cursor,
            num,
            den,
        ),
        crate::region::aspect_lock_fits(s.select_region.top_left, cursor, num, den),
    ensures
        ({
            let d = commit_spec(s).draw_region;
            let width = d.bottom_right.x - d.top_left.x;
            let height = d.bottom_right.y - d.top_left.y;
            den * width <= num * height < den * (width + 1)
        }),
{
    crate::region::lemma_aspect_lock_ratio(s.select_region.top_left, cursor, num, den);
    let a = s.select_region.top_left;
    let br = aspect_locked_br(a, cursor, num, den);
    let d = commit_spec(s).draw_region;
    assert(d == normalize_spec(s.select_region));
    assert(d.bottom_right.x - d.top_left.x == crate::num::iabs(br.x - a.x));
    assert(d.bottom_right.y - d.top_left.y == crate::num::iabs(br.y - a.y));
}

/// One committed zoom with the given selection rectangle.
pub open spec fn commit_with(s: ViewSpec, sel: Region) -> ViewSpec {
    commit_spec(ViewSpec { select_region: sel, ..s })
}

/// The state after committing each selection of `sels` in order.
pub open spec fn apply_commits(s: ViewSpec, sels: Seq<Region>) -> ViewSpec
    decreases sels.len(),
{
    if sels.len() == 0 {
        s
    } else {
        apply_commits(commit_with(s, sels[0]), sels.subrange(1, sels.len() as int))
    }
}

/// The state after `n` invocations of "back".
pub open spec fn apply_backs(s: ViewSpec, n: nat) -> ViewSpec
    decreases n,
{
    if n == 0 {
        s
    } else {
        apply_backs(back_spec(s), (n - 1) as nat)
    }
}

proof fn lemma_apply_backs_snoc(s: ViewSpec, n: nat)
    ensures
        apply_backs(s, n + 1) == back_spec(apply_backs(s, n)),
    decreases n,
{
    if n == 0 {
        assert(apply_backs(s, 1) == apply_backs(back_spec(s), 0));
        assert(apply_backs(back_spec(s), 0) == back_spec(s));
        assert(apply_backs(s, 0) == s);
    } else {
        lemma_apply_backs_snoc(back_spec(s), (n - 1) as nat);
        assert(apply_backs(s, n + 1) == apply_backs(back_spec(s), n));
        assert(apply_backs(s, n) == apply_backs(back_spec(s), (n - 1) as nat));
    }
}

/// "Back" on an empty history is a no-op.
pub proof fn lemma_back_empty_noop(s: ViewSpec)
    requires
        s.history.len() == 0,
    ensures
        back_spec(s) == s,
{
}

/// Committing any number of zoom selections and then invoking "back" as
/// many times restores the original draw region and the original history.
pub proof fn lemma_history_round_trip(s: ViewSpec, sels: Seq<Region>)
    ensures
        apply_backs(apply_commits(s, sels), sels.len()).draw_region == s.draw_region,
        apply_backs(apply_commits(s, sels), sels.len()).history == s.history,
    decreases sels.len(),
{
    if sels.len() > 0 {
        let s1 = commit_with(s, sels[0]);
        let rest = sels.subrange(1, sels.len() as int);
        lemma_history_round_trip(s1, rest);
        let x = apply_commits(s, sels);
        assert(x == apply_commits(s1, rest));
        lemma_apply_backs_snoc(x, rest.len());
        let y = apply_backs(x, rest.len());
        assert(apply_backs(x, sels.len()) == back_spec(y));
        assert(y.history == s.history.push(s.draw_region));
        assert(y.history.len() > 0);
        assert(back_spec(y).draw_region == y.history.last());
        assert(s.history.push(s.draw_region).last() == s.draw_region);
        assert(back_spec(y).history =~= s.history);
    }
}

/// Reset yields the same draw region and the same empty history as a
/// fresh-start state refit to the same viewport, whatever came before; and
/// resetting twice is the same as resetting once.
pub proof fn lemma_reset_fresh(s: ViewSpec, vw: u32, vh: u32)
    ensures
        reset_spec(s, vw, vh).draw_region == reset_spec(init_spec(), vw, vh).draw_region,
        reset_spec(s, vw, vh).history == init_spec().history,
        reset_spec(reset_spec(s, vw, vh), vw, vh).draw_region == reset_spec(s, vw, vh).draw_region,
        reset_spec(reset_spec(s, vw, vh), vw, vh).history == reset_spec(s, vw, vh).history,
{
}

} // verus!
