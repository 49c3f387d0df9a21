//! The interactive viewport over a laid-out graph: wheel zoom around
//! the view center, pointer-drag panning, hover and click selection,
//! and the render-only repulsion that nudges nodes away from the
//! focused node.
//!
//! All coordinates are integers in milli world units (one thousandth
//! of the world unit node positions are measured in) and pointer
//! coordinates in milli pixels, so every transform is exact, total and
//! reproducible. The unverified renderer converts to and from floats
//! at the boundary.

use vstd::prelude::*;

use crate::graph::NodeId;
use crate::graph::SpecNodeId;

verus! {

/// One thousandth parts per world unit or pixel.
pub const MILLI: i64 = 1000;

/// Width of the drawing surface, in pixels.
pub const SVG_PX_W: i64 = 2500;

/// Height of the drawing surface, in pixels.
pub const SVG_PX_H: i64 = 1250;

/// Smallest view width (zoom-in clamp), in milli world units.
pub const MIN_VB_W: i64 = 120 * MILLI;

/// Largest view width (zoom-out clamp), in milli world units.
pub const MAX_VB_W: i64 = 12000 * MILLI;

/// Zoom step ratio per wheel notch: widths scale by
/// `ZOOM_STEP_NUM / ZOOM_STEP_DEN` per zoom-out step and by its
/// inverse per zoom-in step.
pub const ZOOM_STEP_NUM: i64 = 28;

/// See [`ZOOM_STEP_NUM`].
pub const ZOOM_STEP_DEN: i64 = 25;

/// Pixel-equivalent of one wheel line step.
pub const LINE_PX: i64 = 40;

/// Pixel-equivalent of one wheel page step.
pub const PAGE_PX: i64 = 800;

/// Nodes closer than this to the focus are pushed away, in milli
/// world units.
pub const HOVER_RADIUS: i64 = 80 * MILLI;

/// Positions the view can reach are clamped into
/// `[-POS_LIMIT, POS_LIMIT]`, far beyond any drawn content.
pub const POS_LIMIT: i64 = 1000000000 * MILLI;

/// Pointer coordinates are accepted up to this magnitude, in milli
/// pixels.
pub const PTR_LIMIT: i64 = 1000000 * MILLI;

/// Wheel delta values are accepted up to this magnitude.
pub const WHEEL_LIMIT: i64 = 1000000000;

/// Node coordinates handed to the repulsion pass are accepted up to
/// this magnitude, in milli world units.
pub const COORD_LIMIT: i64 = 1000000000 * MILLI;

/// A wheel event's vertical delta, in milli units of its granularity.
#[derive(Clone, Copy, Debug, PartialEq, Eq, Structural)]
pub enum WheelDelta {
    Lines(i64),
    Pixels(i64),
    Pages(i64),
}

/// The view rectangle, in milli world units.
#[derive(Clone, Copy, Debug, PartialEq, Eq, Structural)]
pub struct ViewRect {
    pub x: i64,
    pub y: i64,
    pub w: i64,
    pub h: i64,
}

/// The viewport state: view rectangle, panning flag with the last
/// pointer position, and the hovered and pinned node identities.
#[derive(Debug)]
pub struct Viewport {
    pub view: ViewRect,
    pub panning: bool,
    pub last_x: i64,
    pub last_y: i64,
    pub hovered: Option<NodeId>,
    pub pinned: Option<NodeId>,
}

/// Mathematical model of a [`Viewport`].
pub struct SpecViewport {
    pub view: ViewRect,
    pub panning: bool,
    pub last_x: i64,
    pub last_y: i64,
    pub hovered: Option<SpecNodeId>,
    pub pinned: Option<SpecNodeId>,
}

/// The model of an optional node identity.
pub open spec fn opt_id_view(o: Option<NodeId>) -> Option<SpecNodeId> {
    match o {
        Some(id) => Some(id@),
        None => None,
    }
}

impl View for Viewport {
    type V = SpecViewport;

    open spec fn view(&self) -> SpecViewport {
        SpecViewport {
            view: self.view,
            panning: self.panning,
            last_x: self.last_x,
            last_y: self.last_y,
            hovered: opt_id_view(self.hovered),
            pinned: opt_id_view(self.pinned),
        }
    }
}

/// Clamps `v` into `[lo, hi]`.
pub open spec fn spec_clamp(v: int, lo: int, hi: int) -> int {
    if v < lo {
        lo
    } else if v > hi {
        hi
    } else {
        v
    }
}

/// Clamps a view position into its reachable range.
pub open spec fn spec_clamp_pos(v: int) -> int {
    spec_clamp(v, -POS_LIMIT as int, POS_LIMIT as int)
}

/// `a * b / d` with the division truncating toward zero, as machine
/// integer division does; `b` and `d` must be nonnegative resp.
/// positive.
pub open spec fn spec_muldiv(a: int, b: int, d: int) -> int {
    if a >= 0 {
        (a * b) / d
    } else {
        -(((-a) * b) / d)
    }
}

/// The pixel-equivalent magnitude of a wheel delta.
pub open spec fn spec_norm_delta(d: WheelDelta) -> int {
    match d {
        WheelDelta::Lines(v) => (v as int) * (LINE_PX as int),
        WheelDelta::Pixels(v) => v as int,
        WheelDelta::Pages(v) => (v as int) * (PAGE_PX as int),
    }
}

/// The view width after one zoom step: scaled by the step ratio and
/// clamped into `[MIN_VB_W, MAX_VB_W]`.
pub open spec fn spec_zoomed_width(w: int, zoom_in: bool) -> int {
    if zoom_in {
        spec_clamp((w * (ZOOM_STEP_DEN as int)) / (ZOOM_STEP_NUM as int), MIN_VB_W as int, MAX_VB_W as int)
    } else {
        spec_clamp((w * (ZOOM_STEP_NUM as int)) / (ZOOM_STEP_DEN as int), MIN_VB_W as int, MAX_VB_W as int)
    }
}

impl Viewport {
    /// The state invariant: the view width within its clamps, height
    /// nonnegative and at most the width, and positions and the last
    /// pointer position within their ranges.
    pub open spec fn wf(self) -> bool {
        &&& MIN_VB_W <= self.view.w <= MAX_VB_W
        &&& 0 <= self.view.h <= self.view.w
        &&& -POS_LIMIT <= self.view.x <= POS_LIMIT
        &&& -POS_LIMIT <= self.view.y <= POS_LIMIT
        &&& -PTR_LIMIT <= self.last_x <= PTR_LIMIT
        &&& -PTR_LIMIT <= self.last_y <= PTR_LIMIT
    }

    /// Returns the initial viewport: the default view rectangle, not
    /// panning, nothing hovered or pinned.
    pub fn new() -> (v: Viewport)
        ensures
            v.wf(),
            v.view == (ViewRect { x: -200000i64, y: 100000i64, w: 1000000i64, h: 250000i64 }),
            !v.panning,
            v.last_x == 0,
            v.last_y == 0,
            v@.hovered is None,
            v@.pinned is None,
    {
        Viewport {
            view: ViewRect { x: -200 * MILLI, y: 100 * MILLI, w: 1000 * MILLI, h: 250 * MILLI },
            panning: false,
            last_x: 0,
            last_y: 0,
            hovered: None,
            pinned: None,
        }
    }

    /// One wheel step: a negative normalized delta zooms in by the
    /// step factor, any other zooms out by its inverse. The new width
    /// is the old width scaled and clamped; the height keeps the old
    /// aspect ratio; the view keeps its center. Zooming never takes
    /// the width outside `[MIN_VB_W, MAX_VB_W]`.
    pub fn on_wheel(&mut self, delta: WheelDelta)
        requires
            old(self).wf(),
            (delta matches WheelDelta::Lines(v) ==> -WHEEL_LIMIT <= v <= WHEEL_LIMIT),
            (delta matches WheelDelta::Pixels(v) ==> -WHEEL_LIMIT <= v <= WHEEL_LIMIT),
            (delta matches WheelDelta::Pages(v) ==> -WHEEL_LIMIT <= v <= WHEEL_LIMIT),
        ensures
            final(self).wf(),
            final(self).view.w == spec_zoomed_width(
                old(self).view.w as int,
                spec_norm_delta(delta) < 0,
            ),
            final(self).view.h == ((final(self).view.w as int) * (old(self).view.h as int)) / (
                old(self).view.w as int
            ),
            final(self).view.x == spec_clamp_pos(
                old(self).view.x + (old(self).view.w as int) / 2 - (final(self).view.w as int)
                    / 2,
            ),
            final(self).view.y == spec_clamp_pos(
                old(self).view.y + (old(self).view.h as int) / 2 - (final(self).view.h as int)
                    / 2,
            ),
            MIN_VB_W <= final(self).view.w <= MAX_VB_W,
            final(self).panning == old(self).panning,
            final(self).last_x == old(self).last_x,
            final(self).last_y == old(self).last_y,
            final(self)@.hovered == old(self)@.hovered,
            final(self)@.pinned == old(self)@.pinned,
    {
        let dy: i64 = match delta {
            WheelDelta::Lines(v) => v * LINE_PX,
            WheelDelta::Pixels(v) => v,
            WheelDelta::Pages(v) => v * PAGE_PX,
        };
        let zoom_in: bool = dy < 0;
        let old_w: i64 = self.view.w;
        let old_h: i64 = self.view.h;
        let scaled: i64 = if zoom_in {
            (old_w * ZOOM_STEP_DEN) / ZOOM_STEP_NUM
        } else {
            (old_w * ZOOM_STEP_NUM) / ZOOM_STEP_DEN
        };
        let new_w: i64 = if scaled < MIN_VB_W {
            MIN_VB_W
        } else if scaled > MAX_VB_W {
            MAX_VB_W
        } else {
            scaled
        };
        proof {
            assert(0 <= (new_w as int) * (old_h as int) <= 12000000int * 12000000int)
                by (nonlinear_arith)
                requires
                    0 <= new_w <= 12000000,
                    0 <= old_h <= 12000000,
            {
            }
        }
        let new_h: i64 = (new_w * old_h) / old_w;
        proof {
            assert(0 <= new_h <= new_w) by (nonlinear_arith)
                requires
                    0 < old_w,
                    0 <= old_h <= old_w,
                    0 <= new_w,
                    new_h == ((new_w as int) * (old_h as int)) / (old_w as int),
            {
            }
        }
        let cx: i64 = self.view.x + old_w / 2;
        let cy: i64 = self.view.y + old_h / 2;
        let nx: i64 = cx - new_w / 2;
        let ny: i64 = cy - new_h / 2;
        let nx: i64 = if nx < -POS_LIMIT {
            -POS_LIMIT
        } else if nx > POS_LIMIT {
            POS_LIMIT
        } else {
            nx
        };
        let ny: i64 = if ny < -POS_LIMIT {
            -POS_LIMIT
        } else if ny > POS_LIMIT {
            POS_LIMIT
        } else {
            ny
        };
        self.view = ViewRect { x: nx, y: ny, w: new_w, h: new_h };
    }

    /// Pointer down: begins panning, capturing the pointer position.
    pub fn on_pointer_down(&mut self, x: i64, y: i64)
        requires
            old(self).wf(),
            -PTR_LIMIT <= x <= PTR_LIMIT,
            -PTR_LIMIT <= y <= PTR_LIMIT,
        ensures
            final(self).wf(),
            final(self).view == old(self).view,
            final(self).panning,
            final(self).last_x == x,
            final(self).last_y == y,
            final(self)@.hovered == old(self)@.hovered,
            final(self)@.pinned == old(self)@.pinned,
    {
        self.panning = true;
        self.last_x = x;
        self.last_y = y;
    }

    /// Pointer up: ends panning; everything else is kept.
    pub fn on_pointer_up(&mut self)
        requires
            old(self).wf(),
        ensures
            final(self).wf(),
            final(self).view == old(self).view,
            !final(self).panning,
            final(self).last_x == old(self).last_x,
            final(self).last_y == old(self).last_y,
            final(self)@.hovered == old(self)@.hovered,
            final(self)@.pinned == old(self)@.pinned,
    {
        self.panning = false;
    }

    /// Pointer leaving the surface ends panning, like pointer up.
    pub fn on_pointer_leave(&mut self)
        requires
            old(self).wf(),
        ensures
            final(self).wf(),
            final(self).view == old(self).view,
            !final(self).panning,
            final(self).last_x == old(self).last_x,
            final(self).last_y == old(self).last_y,
            final(self)@.hovered == old(self)@.hovered,
            final(self)@.pinned == old(self)@.pinned,
    {
        self.panning = false;
    }

    /// Pointer move. While panning, the view shifts against the
    /// pointer by the pixel delta scaled from screen pixels to world
    /// units — by `delta * view_size / surface_size` per axis — and
    /// the pointer position is captured; otherwise the event is
    /// ignored.
    pub fn on_pointer_move(&mut self, x: i64, y: i64)
        requires
            old(self).wf(),
            -PTR_LIMIT <= x <= PTR_LIMIT,
            -PTR_LIMIT <= y <= PTR_LIMIT,
        ensures
            final(self).wf(),
            !old(self).panning ==> final(self)@ == old(self)@,
            old(self).panning ==> final(self).view.x == spec_clamp_pos(
                old(self).view.x - spec_muldiv(
                    x - old(self).last_x,
                    old(self).view.w as int,
                    (SVG_PX_W * MILLI) as int,
                ),
            ),
            old(self).panning ==> final(self).view.y == spec_clamp_pos(
                old(self).view.y - spec_muldiv(
                    y - old(self).last_y,
                    old(self).view.h as int,
                    (SVG_PX_H * MILLI) as int,
                ),
            ),
            old(self).panning ==> final(self).view.w == old(self).view.w,
            old(self).panning ==> final(self).view.h == old(self).view.h,
            old(self).panning ==> final(self).last_x == x && final(self).last_y == y,
            final(self).panning == old(self).panning,
            final(self)@.hovered == old(self)@.hovered,
            final(self)@.pinned == old(self)@.pinned,
    {
        if !self.panning {
            return ;
        }
        let dx: i64 = x - self.last_x;
        let dy: i64 = y - self.last_y;
        proof {
            assert(-2000000000int * 12000000int <= (dx as int) * (self.view.w as int)
                <= 2000000000int * 12000000int) by (nonlinear_arith)
                requires
                    -2000000000 <= dx <= 2000000000,
                    0 <= self.view.w <= 12000000,
            {
            }
            assert(-2000000000int * 12000000int <= (dy as int) * (self.view.h as int)
                <= 2000000000int * 12000000int) by (nonlinear_arith)
                requires
                    -2000000000 <= dy <= 2000000000,
                    0 <= self.view.h <= 12000000,
            {
            }
            assert(0 <= ((-dx) as int) * (self.view.w as int) <= 2000000000int * 12000000int ||
                dx >= 0) by (nonlinear_arith)
                requires
                    -2000000000 <= dx <= 2000000000,
                    0 <= self.view.w <= 12000000,
            {
            }
            assert(0 <= ((-dy) as int) * (self.view.h as int) <= 2000000000int * 12000000int ||
                dy >= 0) by (nonlinear_arith)
                requires
                    -2000000000 <= dy <= 2000000000,
                    0 <= self.view.h <= 12000000,
            {
            }
        }
        let shift_x: i64 = if dx >= 0 {
            (dx * self.view.w) / (SVG_PX_W * MILLI)
        } else {
            -(((-dx) * self.view.w) / (SVG_PX_W * MILLI))
        };
        let shift_y: i64 = if dy >= 0 {
            (dy * self.view.h) / (SVG_PX_H * MILLI)
        } else {
            -(((-dy) * self.view.h) / (SVG_PX_H * MILLI))
        };
        let nx: i64 = self.view.x - shift_x;
        let ny: i64 = self.view.y - shift_y;
        let nx: i64 = if nx < -POS_LIMIT {
            -POS_LIMIT
        } else if nx > POS_LIMIT {
            POS_LIMIT
        } else {
            nx
        };
        let ny: i64 = if ny < -POS_LIMIT {
            -POS_LIMIT
        } else if ny > POS_LIMIT {
            POS_LIMIT
        } else {
            ny
        };
        self.view = ViewRect { x: nx, y: ny, w: self.view.w, h: self.view.h };
        self.last_x = x;
        self.last_y = y;
    }

    /// Hover enter: records the hovered node.
    pub fn on_hover_enter(&mut self, id: NodeId)
        requires
            old(self).wf(),
        ensures
            final(self).wf(),
            final(self).view == old(self).view,
            final(self).panning == old(self).panning,
            final(self).last_x == old(self).last_x,
            final(self).last_y == old(self).last_y,
            final(self)@.hovered == Some(id@),
            final(self)@.pinned == old(self)@.pinned,
    {
        self.hovered = Some(id);
    }

    /// Hover leave: clears the hovered node.
    pub fn on_hover_leave(&mut self)
        requires
            old(self).wf(),
        ensures
            final(self).wf(),
            final(self).view == old(self).view,
            final(self).panning == old(self).panning,
            final(self).last_x == old(self).last_x,
            final(self).last_y == old(self).last_y,
            final(self)@.hovered is None,
            final(self)@.pinned == old(self)@.pinned,
    {
        self.hovered = None;
    }

    /// Click: pins the node; the view rectangle is not moved.
    pub fn on_click(&mut self, id: NodeId)
        requires
            old(self).wf(),
        ensures
            final(self).wf(),
            final(self).view == old(self).view,
            final(self).panning == old(self).panning,
            final(self).last_x == old(self).last_x,
            final(self).last_y == old(self).last_y,
            final(self)@.hovered == old(self)@.hovered,
            final(self)@.pinned == Some(id@),
    {
        self.pinned = Some(id);
    }

    /// The focus node of the repulsion effect: the hovered node if
    /// any, else the pinned one.
    pub fn focus_id(&self) -> (r: Option<&NodeId>)
        ensures
            self@.hovered is Some ==> (r matches Some(id) && id@ == self@.hovered->0),
            self@.hovered is None && self@.pinned is Some ==> (r matches Some(id) && id@
                == self@.pinned->0),
            self@.hovered is None && self@.pinned is None ==> r is None,
    {
        match &self.hovered {
            Some(id) => Some(id),
            None => match &self.pinned {
                Some(id) => Some(id),
                None => None,
            },
        }
    }
}


// ---------------------------------------------------------------------
// Hover repulsion: a render-only displacement of nodes near the focus
// node. The underlying layout positions are not touched; callers feed
// resolved positions in and draw the displaced copies.
// ---------------------------------------------------------------------

/// A resolved node position, in milli world units.
#[derive(Clone, Copy, Debug, PartialEq, Eq, Structural)]
pub struct WorldPoint {
    pub x: i64,
    pub y: i64,
}

/// The integer square root: the largest `r` with `r * r <= n`.
pub open spec fn spec_isqrt(n: nat) -> nat
    decreases n,
{
    if n == 0 {
        0
    } else {
        let p = spec_isqrt((n - 1) as nat);
        if (p + 1) * (p + 1) <= n {
            (p + 1) as nat
        } else {
            p
        }
    }
}

/// [`spec_isqrt`] squares to at most `n`, and the next square exceeds
/// `n`.
pub proof fn lemma_isqrt_bounds(n: nat)
    ensures
        spec_isqrt(n) * spec_isqrt(n) <= n,
        n < (spec_isqrt(n) + 1) * (spec_isqrt(n) + 1),
    decreases n,
{
    if n > 0 {
        lemma_isqrt_bounds((n - 1) as nat);
        let p = spec_isqrt((n - 1) as nat);
        let s = spec_isqrt(n);
        if (p + 1) * (p + 1) <= n {
            assert(s == p + 1);
            assert(n <= (p + 1) * (p + 1)) by {
                assert(n - 1 < (p + 1) * (p + 1));
            }
            assert(n == (p + 1) * (p + 1));
            assert(s * s <= n);
            assert(n < (s + 1) * (s + 1)) by (nonlinear_arith)
                requires
                    n == (p + 1) * (p + 1),
                    s == p + 1,
                    p >= 0,
            {
            }
        } else {
            assert(s == p);
            assert(s * s <= n - 1);
            assert(n < (s + 1) * (s + 1));
        }
    } else {
        assert(spec_isqrt(n) == 0);
        assert(n < (spec_isqrt(n) + 1) * (spec_isqrt(n) + 1)) by (nonlinear_arith)
            requires
                n == 0,
                spec_isqrt(n) == 0,
        {
        }
    }
}

/// Any `r` whose square brackets `n` is the integer square root.
pub proof fn lemma_isqrt_unique(n: nat, r: nat)
    requires
        r * r <= n,
        n < (r + 1) * (r + 1),
    ensures
        r == spec_isqrt(n),
{
    lemma_isqrt_bounds(n);
    let s = spec_isqrt(n);
    if r < s {
        assert((r + 1) * (r + 1) <= s * s) by (nonlinear_arith)
            requires
                r + 1 <= s,
                r >= 0,
        {
        }
        assert(false);
    }
    if s < r {
        assert((s + 1) * (s + 1) <= r * r) by (nonlinear_arith)
            requires
                s + 1 <= r,
                s >= 0,
        {
        }
        assert(false);
    }
}

/// Computes the integer square root of a distance-squared value.
fn isqrt_u64(n: u64) -> (r: u64)
    requires
        n <= 12800000000,
    ensures
        r as nat == spec_isqrt(n as nat),
        r <= 120000,
        (r as int) * (r as int) <= n as int,
        (n as int) < ((r as int) + 1) * ((r as int) + 1),
{
    let mut r: u64 = 0;
    loop
        invariant_except_break
            n <= 12800000000,
            (r as nat) * (r as nat) <= n as nat,
            r <= 120000,
        ensures
            (r as nat) * (r as nat) <= n as nat,
            (n as nat) < ((r as nat) + 1) * ((r as nat) + 1),
            r <= 120000,
        decreases n - r,
    {
        let nr: u64 = r + 1;
        proof {
            assert((nr as nat) * (nr as nat) <= 14400240001nat) by (nonlinear_arith)
                requires
                    1 <= nr <= 120001,
            {
            }
        }
        let sq: u64 = nr * nr;
        if sq > n {
            break;
        }
        proof {
            assert(nr <= 120000) by (nonlinear_arith)
                requires
                    (nr as nat) * (nr as nat) <= 12800000000,
                    nr >= 1,
            {
            }
            assert(nr <= n) by (nonlinear_arith)
                requires
                    (nr as nat) * (nr as nat) <= n as nat,
                    nr >= 1,
            {
            }
        }
        r = nr;
    }
    proof {
        lemma_isqrt_unique(n as nat, r as nat);
    }
    r
}

/// The squared distance between two points.
pub open spec fn spec_dist_sq(p: WorldPoint, f: WorldPoint) -> int {
    (p.x - f.x) * (p.x - f.x) + (p.y - f.y) * (p.y - f.y)
}

/// The displacement along one axis: the axis delta scaled by
/// `(radius - distance) / radius * push_strength * radius / distance`
/// — that is, `|delta| * (radius - distance) * 2 / (5 * distance)`,
/// carried with the delta's sign (push strength is two fifths).
pub open spec fn spec_push(delta: int, d: int) -> int {
    let m = ((if delta < 0 {
        -delta
    } else {
        delta
    }) * ((HOVER_RADIUS as int) - d) * 2) / (5 * d);
    if delta < 0 {
        -m
    } else {
        m
    }
}

/// Where a node is drawn while the focus node is focused: nodes at
/// the focus position or at least the hover radius away stay put;
/// anything nearer is pushed outward along the connecting line.
pub open spec fn spec_repelled(p: WorldPoint, f: WorldPoint) -> WorldPoint {
    if p.x == f.x && p.y == f.y {
        p
    } else if spec_dist_sq(p, f) >= (HOVER_RADIUS as int) * (HOVER_RADIUS as int) {
        p
    } else {
        let d = spec_isqrt(spec_dist_sq(p, f) as nat) as int;
        WorldPoint {
            x: (p.x + spec_push(p.x - f.x, d)) as i64,
            y: (p.y + spec_push(p.y - f.y, d)) as i64,
        }
    }
}

/// A coordinate pair within the accepted range.
pub open spec fn point_in_range(p: WorldPoint) -> bool {
    &&& -COORD_LIMIT <= p.x <= COORD_LIMIT
    &&& -COORD_LIMIT <= p.y <= COORD_LIMIT
}

/// Computes [`spec_repelled`] for one point.
fn repelled_point(p: WorldPoint, f: WorldPoint) -> (r: WorldPoint)
    requires
        point_in_range(p),
        point_in_range(f),
    ensures
        r == spec_repelled(p, f),
{
    let dx: i64 = p.x - f.x;
    let dy: i64 = p.y - f.y;
    if dx == 0 && dy == 0 {
        return p;
    }
    if dx >= HOVER_RADIUS || dx <= -HOVER_RADIUS || dy >= HOVER_RADIUS || dy <= -HOVER_RADIUS {
        proof {
            assert(spec_dist_sq(p, f) >= (HOVER_RADIUS as int) * (HOVER_RADIUS as int))
                by (nonlinear_arith)
                requires
                    dx == p.x - f.x,
                    dy == p.y - f.y,
                    dx >= HOVER_RADIUS || dx <= -HOVER_RADIUS || dy >= HOVER_RADIUS || dy
                        <= -HOVER_RADIUS,
                    HOVER_RADIUS == 80000,
            {
            }
        }
        return p;
    }
    proof {
        assert(0 <= (dx as int) * (dx as int) < 6400000000int) by (nonlinear_arith)
            requires
                -80000 < dx < 80000,
        {
        }
        assert(0 <= (dy as int) * (dy as int) < 6400000000int) by (nonlinear_arith)
            requires
                -80000 < dy < 80000,
        {
        }
    }
    let ds: i64 = dx * dx + dy * dy;
    if ds >= HOVER_RADIUS * HOVER_RADIUS {
        return p;
    }
    let d: i64 = isqrt_u64(ds as u64) as i64;
    proof {
        assert(ds >= 1) by (nonlinear_arith)
            requires
                ds as int == (dx as int) * (dx as int) + (dy as int) * (dy as int),
                dx != 0 || dy != 0,
        {
        }
        assert(d >= 1) by (nonlinear_arith)
            requires
                (ds as int) < ((d as int) + 1) * ((d as int) + 1),
                ds >= 1,
                d >= 0,
        {
        }
        assert(d < HOVER_RADIUS) by (nonlinear_arith)
            requires
                (d as int) * (d as int) <= ds as int,
                (ds as int) < (HOVER_RADIUS as int) * (HOVER_RADIUS as int),
                d >= 0,
                HOVER_RADIUS > 0,
        {
        }
    }
    let adx: i64 = if dx < 0 {
        -dx
    } else {
        dx
    };
    let ady: i64 = if dy < 0 {
        -dy
    } else {
        dy
    };
    proof {
        assert(0 <= (adx as int) * ((HOVER_RADIUS - d) as int) * 2 <= 12800000000int)
            by (nonlinear_arith)
            requires
                0 <= adx < 80000,
                0 <= HOVER_RADIUS - d <= 80000,
        {
        }
        assert(0 <= (ady as int) * ((HOVER_RADIUS - d) as int) * 2 <= 12800000000int)
            by (nonlinear_arith)
            requires
                0 <= ady < 80000,
                0 <= HOVER_RADIUS - d <= 80000,
        {
        }
    }
    let mx: i64 = (adx * (HOVER_RADIUS - d) * 2) / (5 * d);
    let my: i64 = (ady * (HOVER_RADIUS - d) * 2) / (5 * d);
    proof {
        assert(0 <= mx <= 12800000000int && 0 <= my <= 12800000000int);
    }
    let px: i64 = if dx < 0 {
        p.x - mx
    } else {
        p.x + mx
    };
    let py: i64 = if dy < 0 {
        p.y - my
    } else {
        p.y + my
    };
    WorldPoint { x: px, y: py }
}

/// Returns the positions to draw while `focus` is the focus node:
/// every point repelled per [`spec_repelled`], the underlying
/// positions untouched.
pub fn displaced_positions(points: &Vec<WorldPoint>, focus: WorldPoint) -> (r: Vec<WorldPoint>)
    requires
        forall|i: int| 0 <= i < points@.len() ==> point_in_range(#[trigger] points@[i]),
        point_in_range(focus),
    ensures
        r@.len() == points@.len(),
        forall|i: int| 0 <= i < points@.len() ==> r@[i] == spec_repelled(points@[i], focus),
{
    let mut out: Vec<WorldPoint> = Vec::new();
    let mut i: usize = 0;
    while i < points.len()
        invariant
            0 <= i <= points@.len(),
            out@.len() == i,
            forall|m: int| 0 <= m < points@.len() ==> point_in_range(#[trigger] points@[m]),
            point_in_range(focus),
            forall|m: int| 0 <= m < i ==> out@[m] == spec_repelled(points@[m], focus),
        decreases points@.len() - i,
    {
        out.push(repelled_point(points[i], focus));
        i = i + 1;
    }
    out
}

/// Law: when no other node lies within the hover radius of the focus
/// node, the repulsion pass leaves every position unchanged — each
/// point either sits at the focus position itself or at squared
/// distance at least the squared hover radius, and such points are
/// never moved.
pub proof fn lemma_hover_far_nodes_unchanged(
    points: Seq<WorldPoint>,
    focus: WorldPoint,
    out: Seq<WorldPoint>,
)
    requires
        out.len() == points.len(),
        forall|i: int| 0 <= i < points.len() ==> out[i] == spec_repelled(#[trigger] points[i], focus),
        forall|i: int|
            0 <= i < points.len() ==> points[i] == focus || spec_dist_sq(
                #[trigger] points[i],
                focus,
            ) >= (HOVER_RADIUS as int) * (HOVER_RADIUS as int),
    ensures
        out == points,
{
    assert(out =~= points);
}


} // verus!
