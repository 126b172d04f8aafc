//! Position tracking for pan gestures.
//!
//! The tracker keeps three coordinate spaces consistent: global pixel
//! coordinates at full resolution, current-level pixel coordinates, and
//! cache-local pixel coordinates.  On every pan delta it updates the
//! cache-local position, classifies the position against the cache and
//! image borders, applies direction-switch corrections to the global
//! offset, and reports whether a background refill is due.
//!
//! All coordinates are whole pixels.  Cache-local positions are measured
//! from the cache center; the legal range on each axis is the half span
//! `cache_size/2 - viewport_size/2` on either side of zero.

use vstd::prelude::*;

verus! {

use crate::MOVEMENT_AMP;

/// Upper bound on cache and viewport dimensions accepted by the tracker.
pub const CACHE_DIM_LIMIT: i64 = 0x4000_0000;

/// Upper bound on global image extents accepted by the tracker.
pub const GLOBAL_LIMIT: i64 = 0x100_0000_0000;

/// Upper bound on the per-axis cache-to-global compensation factor.
pub const LEVEL_LIMIT: i64 = 0x10_0000;

/// Largest pan delta magnitude accepted per event.
pub const DELTA_LIMIT: i64 = 0x4000_0000;

/// Largest cache-local position magnitude accepted as input.
pub const POS_LIMIT: i64 = 0x100_0000_0000;

/// Which global image edges the current position has reached.
#[derive(Debug, Default, Clone, Copy, PartialEq, Eq, Structural)]
pub struct ExtentCoords {
    pub x_right_reached: bool,
    pub y_top_reached: bool,
    pub x_left_reached: bool,
    pub y_bottom_reached: bool,
}

impl ExtentCoords {
    /// Neither vertical image edge is reached.
    pub open spec fn spec_x_in_center(self) -> bool {
        !self.x_left_reached && !self.x_right_reached
    }

    /// Neither horizontal image edge is reached.
    pub open spec fn spec_y_in_center(self) -> bool {
        !self.y_top_reached && !self.y_bottom_reached
    }

    /// True when the position is away from both the left and the right
    /// image edge.
    pub fn x_in_center(self) -> (r: bool)
        ensures
            r == self.spec_x_in_center(),
    {
        !self.x_left_reached && !self.x_right_reached
    }

    /// True when the position is away from both the top and the bottom
    /// image edge.
    pub fn y_in_center(self) -> (r: bool)
        ensures
            r == self.spec_y_in_center(),
    {
        !self.y_top_reached && !self.y_bottom_reached
    }
}

/// Everything a pan update reports: which soft cache triggers fired,
/// which global edges are reached, and whether the cache or a hard
/// border was hit.
#[derive(Debug, Clone, Copy, PartialEq, Eq, Structural)]
pub struct Limits {
    pub xcache_right_trig_reached: bool,
    pub xcache_left_trig_reached: bool,
    pub ycache_bottom_trig_reached: bool,
    pub ycache_top_trig_reached: bool,
    pub xyborder: ExtentCoords,
    pub border_reached: bool,
    pub cache_reached: bool,
}

/// Border classification of the current pan position: the center, one of
/// eight directional borders of the cache, or one of eight "Limit"
/// variants reached when the global image edge itself is hit.
#[derive(Debug, Clone, Copy, PartialEq, Eq, Structural)]
pub enum Borders {
    Left,
    Right,
    Top,
    Bottom,
    TopLeft,
    TopRight,
    BottomLeft,
    BottomRight,
    Center,
    LeftLimit,
    RightLimit,
    TopLimit,
    BottomLimit,
    TopLeftLimit,
    TopRightLimit,
    BottomLeftLimit,
    BottomRightLimit,
}

/// Tracks pan positions and their limits for one viewer session.
///
/// - `max_global_x`, `max_global_y`: global extents at full resolution;
///   global offsets are clamped to `[0, max_global]`.
/// - `cache_size_x`, `cache_size_y`: cache buffer extents in pixels.
/// - `viewport_size_x`, `viewport_size_y`: viewport extents in pixels,
///   never larger than the cache extents.
/// - `current_x`, `current_y`: last stable global position.
/// - `center_correction_x`, `center_correction_y`: transient global
///   compensation applied when a border is first reached.
/// - `preload_possible`: whether a background refill is worthwhile at
///   the current magnification.
/// - `cache_comp_x`, `cache_comp_y`: global pixels per cache pixel on
///   each axis (the selected downsample level).
pub struct Tracker {
    pub max_global_x: i64,
    pub max_global_y: i64,
    pub cache_size_x: i64,
    pub cache_size_y: i64,
    pub viewport_size_x: i64,
    pub viewport_size_y: i64,
    pub current_x: i64,
    pub current_y: i64,
    pub center_correction_x: i64,
    pub center_correction_y: i64,
    pub preload_possible: bool,
    pub cache_comp_x: i64,
    pub cache_comp_y: i64,
}

/// Bounds on a product of two non-negative bounded factors.
pub proof fn lemma_mul_le(a: int, b: int, c: int, d: int)
    by (nonlinear_arith)
    requires
        0 <= a <= c,
        0 <= b <= d,
    ensures
        0 <= a * b <= c * d,
{
}

/// Clamp of a value into `[lo, hi]`.
pub open spec fn clamp_i(v: int, lo: int, hi: int) -> int {
    if v < lo {
        lo
    } else if v > hi {
        hi
    } else {
        v
    }
}

/// Absolute value.
pub open spec fn abs_i(v: int) -> int {
    if v < 0 {
        -v
    } else {
        v
    }
}

/// Division truncating toward zero, as machine division does.
pub open spec fn tdiv(a: int, b: int) -> int {
    if a >= 0 {
        a / b
    } else {
        -((-a) / b)
    }
}

/// The larger of two values.
pub open spec fn max_i(a: int, b: int) -> int {
    if a >= b {
        a
    } else {
        b
    }
}

/// The smaller of two values.
pub open spec fn min_i(a: int, b: int) -> int {
    if a <= b {
        a
    } else {
        b
    }
}

/// Two-sided bound on a product with a bounded left factor of either
/// sign and a non-negative bounded right factor.
pub proof fn lemma_mul_bounds(a: int, b: int, c: int, d: int)
    by (nonlinear_arith)
    requires
        -c <= a <= c,
        0 <= b <= d,
        0 <= c,
    ensures
        -(c * d) <= a * b <= c * d,
{
}

/// A quotient of non-negative values stays below any bound that the
/// numerator stays below `c` times.
pub proof fn lemma_div_bound(a: int, b: int, c: int)
    by (nonlinear_arith)
    requires
        0 <= a,
        1 <= c,
        a <= b * c,
    ensures
        0 <= a / c,
        a / c <= b,
{
}

/// A quotient of a non-negative numerator by a positive divisor never
/// exceeds the numerator.
pub proof fn lemma_div_le_self(a: int, c: int)
    by (nonlinear_arith)
    requires
        0 <= a,
        1 <= c,
    ensures
        0 <= a / c <= a,
{
}

/// Division by a positive divisor is monotone in the numerator.
pub proof fn lemma_div_mono(a: int, b: int, c: int)
    by (nonlinear_arith)
    requires
        0 <= a <= b,
        1 <= c,
    ensures
        a / c <= b / c,
{
}

impl Tracker {
    /// Well-formedness: positive viewport no larger than the cache,
    /// non-negative global extents, a stable position inside them, and
    /// everything small enough for exact pixel arithmetic.
    pub open spec fn wf(self) -> bool {
        &&& 0 < self.viewport_size_x <= self.cache_size_x <= CACHE_DIM_LIMIT
        &&& 0 < self.viewport_size_y <= self.cache_size_y <= CACHE_DIM_LIMIT
        &&& 0 <= self.max_global_x <= GLOBAL_LIMIT
        &&& 0 <= self.max_global_y <= GLOBAL_LIMIT
        &&& 0 <= self.current_x <= self.max_global_x
        &&& 0 <= self.current_y <= self.max_global_y
        &&& 1 <= self.cache_comp_x <= LEVEL_LIMIT
        &&& 1 <= self.cache_comp_y <= LEVEL_LIMIT
        &&& abs_i(self.center_correction_x as int) <= CACHE_DIM_LIMIT * LEVEL_LIMIT
        &&& abs_i(self.center_correction_y as int) <= CACHE_DIM_LIMIT * LEVEL_LIMIT
    }

    /// Half of the cache width left over once the viewport is centered
    /// in it: the legal cache-local pan range on the x axis is
    /// `[-half_span_x, half_span_x]`.
    pub open spec fn half_span_x(self) -> int {
        self.cache_size_x / 2 - self.viewport_size_x / 2
    }

    /// Legal cache-local pan half range on the y axis.
    pub open spec fn half_span_y(self) -> int {
        self.cache_size_y / 2 - self.viewport_size_y / 2
    }

    /// Soft trigger distance on the x axis: half way to the cache edge.
    pub open spec fn trig_x(self) -> int {
        self.half_span_x() / 2
    }

    /// Soft trigger distance on the y axis.
    pub open spec fn trig_y(self) -> int {
        self.half_span_y() / 2
    }

    /// Which global image edges the offset `(gx, gy)` touches.
    pub open spec fn extent_flags(self, gx: int, gy: int) -> ExtentCoords {
        ExtentCoords {
            x_right_reached: gx >= self.max_global_x,
            y_top_reached: gy <= 0,
            x_left_reached: gx <= 0,
            y_bottom_reached: gy >= self.max_global_y,
        }
    }
}

/// The border decision table.  Soft cache triggers pick the direction;
/// a trigger whose global-edge counterpart is also reached degrades a
/// diagonal to the other axis, and a fully limited direction yields the
/// "Limit" variant.
pub open spec fn border_from_limits(l: Limits) -> Borders {
    if l.xcache_right_trig_reached && l.ycache_top_trig_reached {
        if l.xyborder.y_top_reached && l.xyborder.x_right_reached {
            Borders::TopRightLimit
        } else if l.xyborder.y_top_reached {
            Borders::Top
        } else if l.xyborder.x_right_reached {
            Borders::Right
        } else {
            Borders::TopRight
        }
    } else if l.xcache_right_trig_reached && l.ycache_bottom_trig_reached {
        if l.xyborder.y_bottom_reached && l.xyborder.x_right_reached {
            Borders::BottomRightLimit
        } else if l.xyborder.y_bottom_reached {
            Borders::Bottom
        } else if l.xyborder.x_right_reached {
            Borders::Right
        } else {
            Borders::BottomRight
        }
    } else if l.xcache_left_trig_reached && l.ycache_top_trig_reached {
        if l.xyborder.y_top_reached && l.xyborder.x_left_reached {
            Borders::TopLeftLimit
        } else if l.xyborder.y_top_reached {
            Borders::Top
        } else if l.xyborder.x_left_reached {
            Borders::Left
        } else {
            Borders::TopLeft
        }
    } else if l.xcache_left_trig_reached && l.ycache_bottom_trig_reached {
        if l.xyborder.y_bottom_reached && l.xyborder.x_left_reached {
            Borders::BottomLeftLimit
        } else if l.xyborder.y_bottom_reached {
            Borders::Bottom
        } else if l.xyborder.x_left_reached {
            Borders::Left
        } else {
            Borders::BottomLeft
        }
    } else if l.xcache_right_trig_reached {
        if l.xyborder.x_right_reached {
            Borders::RightLimit
        } else {
            Borders::Right
        }
    } else if l.xcache_left_trig_reached {
        if l.xyborder.x_left_reached {
            Borders::LeftLimit
        } else {
            Borders::Left
        }
    } else if l.ycache_top_trig_reached {
        if l.xyborder.y_top_reached {
            Borders::TopLimit
        } else {
            Borders::Top
        }
    } else if l.ycache_bottom_trig_reached {
        if l.xyborder.y_bottom_reached {
            Borders::BottomLimit
        } else {
            Borders::Bottom
        }
    } else {
        Borders::Center
    }
}

/// A "Limit" border can only arise while the soft cache triggers of the
/// matching direction are active.
pub proof fn lemma_limit_needs_triggers(l: Limits)
    ensures
        border_from_limits(l) == Borders::RightLimit ==> l.xcache_right_trig_reached,
        border_from_limits(l) == Borders::LeftLimit ==> l.xcache_left_trig_reached,
        border_from_limits(l) == Borders::TopLimit ==> l.ycache_top_trig_reached,
        border_from_limits(l) == Borders::BottomLimit ==> l.ycache_bottom_trig_reached,
        border_from_limits(l) == Borders::TopRightLimit ==> l.xcache_right_trig_reached
            && l.ycache_top_trig_reached,
        border_from_limits(l) == Borders::TopLeftLimit ==> l.xcache_left_trig_reached
            && l.ycache_top_trig_reached,
        border_from_limits(l) == Borders::BottomRightLimit ==> l.xcache_right_trig_reached
            && l.ycache_bottom_trig_reached,
        border_from_limits(l) == Borders::BottomLeftLimit ==> l.xcache_left_trig_reached
            && l.ycache_bottom_trig_reached,
{
}

impl Tracker {
    /// Clip the provided cache coordinates to the legal cache-local pan
    /// range `[-half_span, half_span]` on each axis.
    pub fn clip_cache_coords(&self, cache_x: &mut i64, cache_y: &mut i64)
        requires
            self.wf(),
        ensures
            *final(cache_x) == clamp_i(*old(cache_x) as int, -self.half_span_x(), self.half_span_x()),
            *final(cache_y) == clamp_i(*old(cache_y) as int, -self.half_span_y(), self.half_span_y()),
    {
        let hx: i64 = self.cache_size_x / 2 - self.viewport_size_x / 2;
        let hy: i64 = self.cache_size_y / 2 - self.viewport_size_y / 2;
        if *cache_y < -hy {
            *cache_y = -hy;
        } else if *cache_y > hy {
            *cache_y = hy;
        }
        if *cache_x < -hx {
            *cache_x = -hx;
        } else if *cache_x > hx {
            *cache_x = hx;
        }
    }

    /// Clip the provided global coordinates to the image extents
    /// `[0, max_global]` on each axis.
    pub fn clip_global_coords(&self, global_x: &mut i64, global_y: &mut i64)
        requires
            self.wf(),
        ensures
            *final(global_x) == clamp_i(*old(global_x) as int, 0, self.max_global_x as int),
            *final(global_y) == clamp_i(*old(global_y) as int, 0, self.max_global_y as int),
            0 <= *final(global_x) <= self.max_global_x,
            0 <= *final(global_y) <= self.max_global_y,
    {
        if *global_y < 0 {
            *global_y = 0;
        } else if *global_y > self.max_global_y {
            *global_y = self.max_global_y;
        }
        if *global_x < 0 {
            *global_x = 0;
        } else if *global_x > self.max_global_x {
            *global_x = self.max_global_x;
        }
    }

    /// Which global image edges the given offset touches.
    fn check_coords(&self, global_x: i64, global_y: i64) -> (r: ExtentCoords)
        ensures
            r == self.extent_flags(global_x as int, global_y as int),
    {
        ExtentCoords {
            x_right_reached: global_x >= self.max_global_x,
            y_top_reached: global_y <= 0,
            x_left_reached: global_x <= 0,
            y_bottom_reached: global_y >= self.max_global_y,
        }
    }

    /// Classify the current border from the limits of a pan update,
    /// following the decision table.
    pub fn get_current_border(&self, limits: &Limits) -> (b: Borders)
        ensures
            b == border_from_limits(*limits),
    {
        let soft_r = limits.xcache_right_trig_reached;
        let soft_l = limits.xcache_left_trig_reached;
        let soft_t = limits.ycache_top_trig_reached;
        let soft_b = limits.ycache_bottom_trig_reached;
        let hard_r = limits.xyborder.x_right_reached;
        let hard_l = limits.xyborder.x_left_reached;
        let hard_t = limits.xyborder.y_top_reached;
        let hard_b = limits.xyborder.y_bottom_reached;
        if soft_r && soft_t {
            if hard_t && hard_r {
                Borders::TopRightLimit
            } else if hard_t {
                Borders::Top
            } else if hard_r {
                Borders::Right
            } else {
                Borders::TopRight
            }
        } else if soft_r && soft_b {
            if hard_b && hard_r {
                Borders::BottomRightLimit
            } else if hard_b {
                Borders::Bottom
            } else if hard_r {
                Borders::Right
            } else {
                Borders::BottomRight
            }
        } else if soft_l && soft_t {
            if hard_t && hard_l {
                Borders::TopLeftLimit
            } else if hard_t {
                Borders::Top
            } else if hard_l {
                Borders::Left
            } else {
                Borders::TopLeft
            }
        } else if soft_l && soft_b {
            if hard_b && hard_l {
                Borders::BottomLeftLimit
            } else if hard_b {
                Borders::Bottom
            } else if hard_l {
                Borders::Left
            } else {
                Borders::BottomLeft
            }
        } else if soft_r {
            if hard_r {
                Borders::RightLimit
            } else {
                Borders::Right
            }
        } else if soft_l {
            if hard_l {
                Borders::LeftLimit
            } else {
                Borders::Left
            }
        } else if soft_t {
            if hard_t {
                Borders::TopLimit
            } else {
                Borders::Top
            }
        } else if soft_b {
            if hard_b {
                Borders::BottomLimit
            } else {
                Borders::Bottom
            }
        } else {
            Borders::Center
        }
    }
}

/// Global correction applied on the x axis when a border is first
/// reached: the cache half span converted to global pixels, pushing the
/// visible window toward that edge.
pub open spec fn correction_x_spec(t: Tracker, border: Borders) -> int {
    match border {
        Borders::Right | Borders::TopRight | Borders::BottomRight => t.half_span_x()
            * t.cache_comp_x,
        Borders::Left | Borders::TopLeft | Borders::BottomLeft => -(t.half_span_x()
            * t.cache_comp_x),
        _ => 0,
    }
}

/// Global correction applied on the y axis when a border is first
/// reached.
pub open spec fn correction_y_spec(t: Tracker, border: Borders) -> int {
    match border {
        Borders::Bottom | Borders::BottomLeft | Borders::BottomRight => t.half_span_y()
            * t.cache_comp_y,
        Borders::Top | Borders::TopLeft | Borders::TopRight => -(t.half_span_y()
            * t.cache_comp_y),
        _ => 0,
    }
}

/// The global x offset after a border-derived retarget: directional
/// borders move the last stable position by the border correction, the
/// center undoes the stored correction, and "Limit" borders leave the
/// offset alone.
pub open spec fn retarget_x_spec(t: Tracker, old_gx: int, border: Borders) -> int {
    match border {
        Borders::Top | Borders::Bottom | Borders::Right | Borders::Left | Borders::TopLeft
            | Borders::TopRight | Borders::BottomLeft | Borders::BottomRight => t.current_x
            + correction_x_spec(t, border),
        Borders::Center => t.current_x - t.center_correction_x,
        _ => old_gx,
    }
}

/// The global y offset after a border-derived retarget.
pub open spec fn retarget_y_spec(t: Tracker, old_gy: int, border: Borders) -> int {
    match border {
        Borders::Top | Borders::Bottom | Borders::Right | Borders::Left | Borders::TopLeft
            | Borders::TopRight | Borders::BottomLeft | Borders::BottomRight => t.current_y
            + correction_y_spec(t, border),
        Borders::Center => t.current_y - t.center_correction_y,
        _ => old_gy,
    }
}

/// Offset compensation once a border is reached: on a single-axis border
/// the cache position of that axis is zeroed; on a diagonal border, an
/// axis whose soft edge fired while the orthogonal image edge is not
/// active gives its remaining pan budget to the other axis, so a
/// diagonal drag does not stick to a corner.  `l` carries the
/// full-threshold cache flags and the image-edge flags.
pub open spec fn compensate_spec(t: Tracker, cx: int, cy: int, l: Limits, border: Borders) -> (
    int,
    int,
) {
    match border {
        Borders::Top | Borders::Bottom => (cx, 0),
        Borders::Right | Borders::Left => (0, cy),
        Borders::TopLeft => if l.xcache_left_trig_reached && l.xyborder.spec_x_in_center() {
            let dist = t.half_span_y() - abs_i(cy);
            (0, if l.xyborder.spec_y_in_center() {
                dist
            } else {
                -(t.viewport_size_y / 2) + dist
            })
        } else if l.ycache_top_trig_reached && l.xyborder.spec_y_in_center() {
            let dist = t.half_span_x() - abs_i(cx);
            (
                if l.xyborder.spec_x_in_center() {
                    dist
                } else {
                    -(t.viewport_size_x / 2) + dist
                },
                0,
            )
        } else {
            (cx, cy)
        },
        Borders::BottomLeft => if l.xcache_left_trig_reached && l.xyborder.spec_x_in_center() {
            let dist = t.half_span_y() - abs_i(cy);
            (0, if l.xyborder.spec_y_in_center() {
                -dist
            } else {
                t.viewport_size_y / 2 - dist
            })
        } else if l.ycache_bottom_trig_reached && l.xyborder.spec_y_in_center() {
            let dist = t.half_span_x() - abs_i(cx);
            (
                if l.xyborder.spec_x_in_center() {
                    dist
                } else {
                    -(t.viewport_size_x / 2) + dist
                },
                0,
            )
        } else {
            (cx, cy)
        },
        Borders::TopRight => {
            let first = if l.xcache_right_trig_reached && l.xyborder.spec_x_in_center() {
                let dist = t.half_span_y() - abs_i(cy);
                (0, if l.xyborder.spec_y_in_center() {
                    dist
                } else {
                    -(t.viewport_size_y / 2) + dist
                })
            } else {
                (cx, cy)
            };
            if l.ycache_top_trig_reached && l.xyborder.spec_y_in_center() {
                let dist = t.half_span_x() - abs_i(first.0);
                (
                    if l.xyborder.spec_x_in_center() {
                        -dist
                    } else {
                        t.viewport_size_x / 2 - dist
                    },
                    0,
                )
            } else {
                first
            }
        },
        Borders::BottomRight => {
            let first = if l.xcache_right_trig_reached && l.xyborder.spec_x_in_center() {
                let dist = t.half_span_y() - abs_i(cy);
                (0, if l.xyborder.spec_y_in_center() {
                    -dist
                } else {
                    t.viewport_size_y / 2 - dist
                })
            } else {
                (cx, cy)
            };
            if l.ycache_bottom_trig_reached && l.xyborder.spec_y_in_center() {
                let dist = t.half_span_x() - abs_i(first.0);
                (
                    if l.xyborder.spec_x_in_center() {
                        -dist
                    } else {
                        t.viewport_size_x / 2 - dist
                    },
                    0,
                )
            } else {
                first
            }
        },
        _ => (cx, cy),
    }
}

impl Tracker {
    /// Cache position after a pan delta, amplified by the fixed
    /// sensitivity.
    pub open spec fn panned(pos: int, delta: int) -> int {
        pos - MOVEMENT_AMP * delta
    }

    /// Whether a full cache edge is newly crossed on a side whose image
    /// edge is not already reached, while preloading is worthwhile: the
    /// condition for a border-reached refill.
    pub open spec fn border_hit(self, cx: int, cy: int, gx: int, gy: int) -> bool {
        self.preload_possible && ((cx >= self.half_span_x() && !(gx >= self.max_global_x)) || (cy
            >= self.half_span_y() && !(gy >= self.max_global_y)) || (cx <= -self.half_span_x()
            && !(gx <= 0)) || (cy <= -self.half_span_y() && !(gy <= 0)))
    }

    /// The limits a pan update reports, given the panned cache position
    /// and the global offset at entry.
    pub open spec fn soft_limits_of(self, cx: int, cy: int, gx: int, gy: int) -> Limits {
        Limits {
            xcache_right_trig_reached: cx >= self.trig_x(),
            xcache_left_trig_reached: cx <= -self.trig_x(),
            ycache_bottom_trig_reached: cy >= self.trig_y(),
            ycache_top_trig_reached: cy <= -self.trig_y(),
            xyborder: self.extent_flags(gx, gy),
            cache_reached: cx >= self.trig_x() || cx <= -self.trig_x() || cy >= self.trig_y() || cy
                <= -self.trig_y(),
            border_reached: self.border_hit(cx, cy, gx, gy),
        }
    }

    /// The full-threshold cache flags handed to offset compensation.
    pub open spec fn hard_limits_of(self, cx: int, cy: int, gx: int, gy: int) -> Limits {
        Limits {
            xcache_right_trig_reached: cx >= self.half_span_x(),
            xcache_left_trig_reached: cx <= -self.half_span_x(),
            ycache_bottom_trig_reached: cy >= self.half_span_y(),
            ycache_top_trig_reached: cy <= -self.half_span_y(),
            xyborder: self.extent_flags(gx, gy),
            cache_reached: false,
            border_reached: true,
        }
    }

    /// Fields a pan update never touches.
    pub open spec fn same_frame(self, other: Tracker) -> bool {
        &&& self.max_global_x == other.max_global_x
        &&& self.max_global_y == other.max_global_y
        &&& self.cache_size_x == other.cache_size_x
        &&& self.cache_size_y == other.cache_size_y
        &&& self.viewport_size_x == other.viewport_size_x
        &&& self.viewport_size_y == other.viewport_size_y
        &&& self.preload_possible == other.preload_possible
        &&& self.cache_comp_x == other.cache_comp_x
        &&& self.cache_comp_y == other.cache_comp_y
    }

    /// Retarget the global offset from the last stable position and the
    /// border-derived correction, and remember the correction applied.
    fn set_global_coords(&mut self, x: &mut i64, y: &mut i64, border: &Borders)
        requires
            old(self).wf(),
        ensures
            *final(x) == retarget_x_spec(*old(self), *old(x) as int, *border),
            *final(y) == retarget_y_spec(*old(self), *old(y) as int, *border),
            final(self).center_correction_x == correction_x_spec(*old(self), *border),
            final(self).center_correction_y == correction_y_spec(*old(self), *border),
            old(self).same_frame(*final(self)),
            final(self).current_x == old(self).current_x,
            final(self).current_y == old(self).current_y,
            final(self).wf(),
    {
        let hx: i64 = self.cache_size_x / 2 - self.viewport_size_x / 2;
        let hy: i64 = self.cache_size_y / 2 - self.viewport_size_y / 2;
        proof {
            lemma_mul_le(hx as int, self.cache_comp_x as int, CACHE_DIM_LIMIT as int, LEVEL_LIMIT as int);
            lemma_mul_le(hy as int, self.cache_comp_y as int, CACHE_DIM_LIMIT as int, LEVEL_LIMIT as int);
        }
        let mut correction_x: i64 = 0;
        let mut correction_y: i64 = 0;
        match border {
            Borders::Top => {
                correction_y = -(hy * self.cache_comp_y);
                *y = self.current_y + correction_y;
                *x = self.current_x;
            },
            Borders::Bottom => {
                correction_y = hy * self.cache_comp_y;
                *y = self.current_y + correction_y;
                *x = self.current_x;
            },
            Borders::Right => {
                correction_x = hx * self.cache_comp_x;
                *x = self.current_x + correction_x;
                *y = self.current_y;
            },
            Borders::Left => {
                correction_x = -(hx * self.cache_comp_x);
                *x = self.current_x + correction_x;
                *y = self.current_y;
            },
            Borders::Center => {
                *x = self.current_x - self.center_correction_x;
                *y = self.current_y - self.center_correction_y;
            },
            Borders::TopLeft => {
                correction_x = -(hx * self.cache_comp_x);
                correction_y = -(hy * self.cache_comp_y);
                *x = self.current_x + correction_x;
                *y = self.current_y + correction_y;
            },
            Borders::TopRight => {
                correction_x = hx * self.cache_comp_x;
                correction_y = -(hy * self.cache_comp_y);
                *x = self.current_x + correction_x;
                *y = self.current_y + correction_y;
            },
            Borders::BottomLeft => {
                correction_x = -(hx * self.cache_comp_x);
                correction_y = hy * self.cache_comp_y;
                *x = self.current_x + correction_x;
                *y = self.current_y + correction_y;
            },
            Borders::BottomRight => {
                correction_x = hx * self.cache_comp_x;
                correction_y = hy * self.cache_comp_y;
                *x = self.current_x + correction_x;
                *y = self.current_y + correction_y;
            },
            _ => {},
        }
        self.center_correction_x = correction_x;
        self.center_correction_y = correction_y;
    }

    /// Redistribute the cache position after a border was reached.
    fn compensate_offsets(&self, cache_x: &mut i64, cache_y: &mut i64, limits: Limits, border: &Borders)
        requires
            self.wf(),
            abs_i(*old(cache_x) as int) <= self.half_span_x(),
            abs_i(*old(cache_y) as int) <= self.half_span_y(),
        ensures
            *final(cache_x) == compensate_spec(
                *self,
                *old(cache_x) as int,
                *old(cache_y) as int,
                limits,
                *border,
            ).0,
            *final(cache_y) == compensate_spec(
                *self,
                *old(cache_x) as int,
                *old(cache_y) as int,
                limits,
                *border,
            ).1,
    {
        let hx: i64 = self.cache_size_x / 2 - self.viewport_size_x / 2;
        let hy: i64 = self.cache_size_y / 2 - self.viewport_size_y / 2;
        let minx: i64 = -(self.viewport_size_x / 2);
        let maxx: i64 = self.viewport_size_x / 2;
        let miny: i64 = -(self.viewport_size_y / 2);
        let maxy: i64 = self.viewport_size_y / 2;
        match border {
            Borders::Top => {
                *cache_y = 0;
            },
            Borders::Bottom => {
                *cache_y = 0;
            },
            Borders::Right => {
                *cache_x = 0;
            },
            Borders::Left => {
                *cache_x = 0;
            },
            Borders::TopLeft => {
                if limits.xcache_left_trig_reached && limits.xyborder.x_in_center() {
                    *cache_x = 0;
                    let mut dist: i64 = hy;
                    dist = dist - if *cache_y < 0 {
                        -*cache_y
                    } else {
                        *cache_y
                    };
                    if limits.xyborder.y_in_center() {
                        *cache_y = dist;
                    } else {
                        *cache_y = miny + dist;
                    }
                    return ;
                }
                if limits.ycache_top_trig_reached && limits.xyborder.y_in_center() {
                    *cache_y = 0;
                    let mut dist: i64 = hx;
                    dist = dist - if *cache_x < 0 {
                        -*cache_x
                    } else {
                        *cache_x
                    };
                    if limits.xyborder.x_in_center() {
                        *cache_x = dist;
                    } else {
                        *cache_x = minx + dist;
                    }
                }
            },
            Borders::BottomLeft => {
                if limits.xcache_left_trig_reached && limits.xyborder.x_in_center() {
                    *cache_x = 0;
                    let mut dist: i64 = hy;
                    dist = dist - if *cache_y < 0 {
                        -*cache_y
                    } else {
                        *cache_y
                    };
                    if limits.xyborder.y_in_center() {
                        *cache_y = -dist;
                    } else {
                        *cache_y = maxy - dist;
                    }
                    return ;
                }
                if limits.ycache_bottom_trig_reached && limits.xyborder.y_in_center() {
                    *cache_y = 0;
                    let mut dist: i64 = hx;
                    dist = dist - if *cache_x < 0 {
                        -*cache_x
                    } else {
                        *cache_x
                    };
                    if limits.xyborder.x_in_center() {
                        *cache_x = dist;
                    } else {
                        *cache_x = minx + dist;
                    }
                }
            },
            Borders::TopRight => {
                if limits.xcache_right_trig_reached && limits.xyborder.x_in_center() {
                    *cache_x = 0;
                    let mut dist: i64 = hy;
                    dist = dist - if *cache_y < 0 {
                        -*cache_y
                    } else {
                        *cache_y
                    };
                    if limits.xyborder.y_in_center() {
                        *cache_y = dist;
                    } else {
                        *cache_y = miny + dist;
                    }
                }
                if limits.ycache_top_trig_reached && limits.xyborder.y_in_center() {
                    *cache_y = 0;
                    let mut dist: i64 = hx;
                    dist = dist - if *cache_x < 0 {
                        -*cache_x
                    } else {
                        *cache_x
                    };
                    if limits.xyborder.x_in_center() {
                        *cache_x = -dist;
                    } else {
                        *cache_x = maxx - dist;
                    }
                }
            },
            Borders::BottomRight => {
                if limits.xcache_right_trig_reached && limits.xyborder.x_in_center() {
                    *cache_x = 0;
                    let mut dist: i64 = hy;
                    dist = dist - if *cache_y < 0 {
                        -*cache_y
                    } else {
                        *cache_y
                    };
                    if limits.xyborder.y_in_center() {
                        *cache_y = -dist;
                    } else {
                        *cache_y = maxy - dist;
                    }
                }
                if limits.ycache_bottom_trig_reached && limits.xyborder.y_in_center() {
                    *cache_y = 0;
                    let mut dist: i64 = hx;
                    dist = dist - if *cache_x < 0 {
                        -*cache_x
                    } else {
                        *cache_x
                    };
                    if limits.xyborder.x_in_center() {
                        *cache_x = -dist;
                    } else {
                        *cache_x = maxx - dist;
                    }
                }
            },
            _ => {},
        }
    }

    /// Apply a pan delta: move the cache position, classify the border,
    /// retarget the global offset, detect a border-reached refill, and
    /// clip both coordinate spaces to their legal ranges.
    ///
    /// The returned limits report the soft cache triggers and image-edge
    /// flags of the panned position; `cache_reached` says some soft
    /// trigger fired, `border_reached` says a refill is due.  A pan that
    /// fires no soft trigger from a stable centered state leaves the
    /// global offset unchanged and moves only the cache position.
    #[verifier::rlimit(100)]
    pub fn update_coords(
        &mut self,
        global_x: &mut i64,
        global_y: &mut i64,
        cache_x: &mut i64,
        cache_y: &mut i64,
        delta_x: i64,
        delta_y: i64,
    ) -> (limits: Limits)
        requires
            old(self).wf(),
            -DELTA_LIMIT <= delta_x <= DELTA_LIMIT,
            -DELTA_LIMIT <= delta_y <= DELTA_LIMIT,
            -POS_LIMIT <= *old(cache_x) <= POS_LIMIT,
            -POS_LIMIT <= *old(cache_y) <= POS_LIMIT,
        ensures
            limits == old(self).soft_limits_of(
                Tracker::panned(*old(cache_x) as int, delta_x as int),
                Tracker::panned(*old(cache_y) as int, delta_y as int),
                *old(global_x) as int,
                *old(global_y) as int,
            ),
            old(self).same_frame(*final(self)),
            final(self).wf(),
            0 <= *final(global_x) <= old(self).max_global_x,
            0 <= *final(global_y) <= old(self).max_global_y,
            abs_i(*final(cache_x) as int) <= old(self).half_span_x(),
            abs_i(*final(cache_y) as int) <= old(self).half_span_y(),
            !limits.border_reached ==> {
                let s = *old(self);
                let cx1 = Tracker::panned(*old(cache_x) as int, delta_x as int);
                let cy1 = Tracker::panned(*old(cache_y) as int, delta_y as int);
                let b = border_from_limits(limits);
                &&& *final(cache_x) == clamp_i(cx1, -s.half_span_x(), s.half_span_x())
                &&& *final(cache_y) == clamp_i(cy1, -s.half_span_y(), s.half_span_y())
                &&& *final(global_x) == clamp_i(
                    retarget_x_spec(s, *old(global_x) as int, b),
                    0,
                    s.max_global_x as int,
                )
                &&& *final(global_y) == clamp_i(
                    retarget_y_spec(s, *old(global_y) as int, b),
                    0,
                    s.max_global_y as int,
                )
                &&& final(self).current_x == s.current_x
                &&& final(self).current_y == s.current_y
                &&& final(self).center_correction_x == correction_x_spec(s, b)
                &&& final(self).center_correction_y == correction_y_spec(s, b)
            },
            limits.border_reached ==> {
                let s = *old(self);
                let cx1 = Tracker::panned(*old(cache_x) as int, delta_x as int);
                let cy1 = Tracker::panned(*old(cache_y) as int, delta_y as int);
                let b = border_from_limits(limits);
                let gxc = clamp_i(
                    retarget_x_spec(s, *old(global_x) as int, b),
                    0,
                    s.max_global_x as int,
                );
                let gyc = clamp_i(
                    retarget_y_spec(s, *old(global_y) as int, b),
                    0,
                    s.max_global_y as int,
                );
                let hl = s.hard_limits_of(cx1, cy1, *old(global_x) as int, *old(global_y) as int);
                let comp = compensate_spec(
                    s,
                    clamp_i(cx1, -s.half_span_x(), s.half_span_x()),
                    clamp_i(cy1, -s.half_span_y(), s.half_span_y()),
                    hl,
                    b,
                );
                &&& *final(global_x) == gxc
                &&& *final(global_y) == gyc
                &&& final(self).current_x == gxc
                &&& final(self).current_y == gyc
                &&& final(self).center_correction_x == 0
                &&& final(self).center_correction_y == 0
                &&& *final(cache_x) == clamp_i(comp.0, -s.half_span_x(), s.half_span_x())
                &&& *final(cache_y) == clamp_i(comp.1, -s.half_span_y(), s.half_span_y())
            },
    {
        let mut limits = Limits {
            xcache_right_trig_reached: false,
            xcache_left_trig_reached: false,
            ycache_bottom_trig_reached: false,
            ycache_top_trig_reached: false,
            border_reached: false,
            cache_reached: false,
            xyborder: ExtentCoords {
                x_right_reached: false,
                y_top_reached: false,
                x_left_reached: false,
                y_bottom_reached: false,
            },
        };
        *cache_x = *cache_x - delta_x * MOVEMENT_AMP;
        *cache_y = *cache_y - delta_y * MOVEMENT_AMP;
        let hx: i64 = self.cache_size_x / 2 - self.viewport_size_x / 2;
        let hy: i64 = self.cache_size_y / 2 - self.viewport_size_y / 2;
        let trigx: i64 = hx / 2;
        let trigy: i64 = hy / 2;
        let x_right_reached = *cache_x >= trigx;
        let y_bottom_reached = *cache_y >= trigy;
        let x_left_reached = *cache_x <= -trigx;
        let y_top_reached = *cache_y <= -trigy;
        limits.xcache_right_trig_reached = x_right_reached;
        limits.xcache_left_trig_reached = x_left_reached;
        limits.ycache_bottom_trig_reached = y_bottom_reached;
        limits.ycache_top_trig_reached = y_top_reached;
        let xyborder = self.check_coords(*global_x, *global_y);
        limits.xyborder = xyborder;
        let border = self.get_current_border(&limits);
        self.set_global_coords(global_x, global_y, &border);
        if x_right_reached || y_bottom_reached || x_left_reached || y_top_reached {
            limits.cache_reached = true;
        }
        let x_right_full = *cache_x >= hx;
        let y_bottom_full = *cache_y >= hy;
        let x_left_full = *cache_x <= -hx;
        let y_top_full = *cache_y <= -hy;
        if ((x_right_full && !limits.xyborder.x_right_reached) || (y_bottom_full
            && !limits.xyborder.y_bottom_reached) || (x_left_full
            && !limits.xyborder.x_left_reached) || (y_top_full && !limits.xyborder.y_top_reached))
            && self.preload_possible {
            limits.border_reached = true;
            let limits_full = Limits {
                xcache_right_trig_reached: x_right_full,
                xcache_left_trig_reached: x_left_full,
                ycache_bottom_trig_reached: y_bottom_full,
                ycache_top_trig_reached: y_top_full,
                border_reached: true,
                cache_reached: false,
                xyborder,
            };
            self.clip_global_coords(global_x, global_y);
            self.clip_cache_coords(cache_x, cache_y);
            self.current_x = *global_x;
            self.current_y = *global_y;
            self.center_correction_x = 0;
            self.center_correction_y = 0;
            self.compensate_offsets(cache_x, cache_y, limits_full, &border);
        }
        self.clip_global_coords(global_x, global_y);
        self.clip_cache_coords(cache_x, cache_y);
        limits
    }
}

/// Applying the cache clip twice yields the same result as applying it
/// once, for every input.
pub proof fn lemma_clip_cache_idempotent(t: Tracker, v: int)
    requires
        t.wf(),
    ensures
        clamp_i(clamp_i(v, -t.half_span_x(), t.half_span_x()), -t.half_span_x(), t.half_span_x())
            == clamp_i(v, -t.half_span_x(), t.half_span_x()),
        clamp_i(clamp_i(v, -t.half_span_y(), t.half_span_y()), -t.half_span_y(), t.half_span_y())
            == clamp_i(v, -t.half_span_y(), t.half_span_y()),
{
}

} // verus!
