//! Level selection, geometry planning, region planning, and the cache
//! buffers.
//!
//! The level selector maps a requested zoom factor to the nearest
//! available pyramid level at least as coarse.  The geometry planner
//! recomputes viewport and cache sizes whenever the level or the window
//! changes.  The region planner turns a global offset, a level and a
//! cache size into a clipped read request plus the placement needed to
//! pad a short read back to the full cache size.

use vstd::prelude::*;

verus! {

use crate::CACHE_MAX;
use crate::Size;
use crate::ZoomableImageViewer;
use crate::tracking;
use crate::tracking::Borders;
use crate::tracking::CACHE_DIM_LIMIT;
use crate::tracking::lemma_div_bound;
use crate::tracking::lemma_div_le_self;
use crate::tracking::lemma_mul_le;
use crate::tracking::max_i;
use crate::tracking::min_i;

/// Bound on a magnification-scaled viewport dimension.
const SCALED_BOUND: i64 = 0x4_0000_0000_0000;

/// Bound on an aspect-corrected viewport height.
const ADJ_BOUND: i64 = 0x200_0000_0000;

/// The current border classification, kept both for the cache edge and
/// for the image edge.
pub struct Border {
    pub cache: Borders,
    pub edge: Borders,
}

/// `i` is the first index of `s` whose element is at least `t`.
pub open spec fn is_first_ge(s: Seq<i64>, t: int, i: int) -> bool {
    &&& 0 <= i < s.len()
    &&& s[i] >= t
    &&& forall|j: int| 0 <= j < i ==> s[j] < t
}

/// Some element of `s` is at least `t`.
pub open spec fn has_ge(s: Seq<i64>, t: int) -> bool {
    exists|i: int| is_first_ge(s, t, i)
}

/// A sequence is sorted in ascending order.
pub open spec fn sorted_ascending(s: Seq<i64>) -> bool {
    forall|i: int, j: int| 0 <= i < j < s.len() ==> s[i] <= s[j]
}

/// There is at most one first index.
pub proof fn lemma_first_ge_unique(s: Seq<i64>, t: int, i: int, j: int)
    requires
        is_first_ge(s, t, i),
        is_first_ge(s, t, j),
    ensures
        i == j,
{
}

/// Find the nearest precalculated downsample level at least as coarse as
/// the requested factor: the first element of `slice` that is `>= target`,
/// with its index, or nothing when every element is smaller.
pub fn find_next_greater_value(slice: &Vec<i64>, target: i64) -> (r: Option<(usize, i64)>)
    ensures
        r is Some <==> has_ge(slice@, target as int),
        match r {
            Some((i, v)) => is_first_ge(slice@, target as int, i as int) && v == slice@[i as int],
            None => true,
        },
{
    let mut i: usize = 0;
    while i < slice.len()
        invariant
            0 <= i <= slice@.len(),
            forall|j: int| 0 <= j < i ==> slice@[j] < target,
        decreases slice@.len() - i,
    {
        if slice[i] >= target {
            proof {
                assert(is_first_ge(slice@, target as int, i as int));
            }
            return Some((i, slice[i]));
        }
        i = i + 1;
    }
    None
}

/// On a sorted level sequence, the selected level is the smallest
/// element at least as large as the target.
pub proof fn lemma_select_is_smallest(s: Seq<i64>, t: int, i: int)
    requires
        sorted_ascending(s),
        is_first_ge(s, t, i),
    ensures
        forall|j: int| 0 <= j < s.len() && s[j] >= t ==> s[i] <= s[j],
{
    assert forall|j: int| 0 <= j < s.len() && s[j] >= t implies s[i] <= s[j] by {
        if j < i {
            assert(s[j] < t);
        }
    }
}

/// Two targets with the same ceiling select the same level: if `t2 <= t`
/// and the first elements at least `t` and at least `t2` are equal, they
/// sit at the same index.
pub proof fn lemma_select_same_ceiling(s: Seq<i64>, t: int, t2: int, i: int, i2: int)
    requires
        t2 <= t,
        is_first_ge(s, t, i),
        is_first_ge(s, t2, i2),
        s[i] == s[i2],
    ensures
        i == i2,
{
    if i2 < i {
        assert(s[i2] < t);
    }
    if i < i2 {
        assert(s[i] < t2);
    }
}

// --- Geometry planning -------------------------------------------------
//
// The planner recomputes viewport size, cache size and the preload
// flag from the requested level, the image's native extents, the
// window size and the default viewport.  The following spec functions
// describe each quantity on the state at entry.

/// Index of the level selected for a target factor; the first level at
/// least as coarse, or zero when none exists.
pub open spec fn sel_index_for(s: Seq<i64>, target: int) -> int {
    if has_ge(s, target) {
        choose|i: int| is_first_ge(s, target, i)
    } else {
        0
    }
}

/// The level selected for a target factor: the first available level at
/// least as coarse, or the target itself when none exists.
pub open spec fn sel_level_for(s: Seq<i64>, target: int) -> int {
    if has_ge(s, target) {
        s[sel_index_for(s, target)] as int
    } else {
        target
    }
}

/// Index of the level selected for the session's requested level.
pub open spec fn sel_index(v: ZoomableImageViewer) -> int {
    sel_index_for(v.levels@, v.level as int)
}

/// The level selected for the session's requested level.
pub open spec fn sel_level(v: ZoomableImageViewer) -> int {
    sel_level_for(v.levels@, v.level as int)
}

/// Whether the selected level is the coarsest available one.
pub open spec fn coarsest_available(v: ZoomableImageViewer) -> bool {
    sel_index(v) == v.levels@.len() - 1
}

/// Image width at the selected level, bounded below by one.
pub open spec fn thumb_w(v: ZoomableImageViewer) -> int {
    max_i(v.max_extents.w as int / sel_level(v), 1)
}

/// Image height at the selected level, bounded below by one.
pub open spec fn thumb_h(v: ZoomableImageViewer) -> int {
    max_i(v.max_extents.h as int / sel_level(v), 1)
}

/// The default viewport the plan is based on: at the coarsest level the
/// full downsampled extent becomes the new default.
pub open spec fn vd_w(v: ZoomableImageViewer) -> int {
    if v.level == v.max_level {
        thumb_w(v)
    } else {
        v.view.viewport_default.w as int
    }
}

/// Height of the default viewport the plan is based on.
pub open spec fn vd_h(v: ZoomableImageViewer) -> int {
    if v.level == v.max_level {
        thumb_h(v)
    } else {
        v.view.viewport_default.h as int
    }
}

/// The default viewport height scaled by the magnification
/// `max_level / level`: the cache height the level would call for.
pub open spec fn scaled_h(v: ZoomableImageViewer) -> int {
    vd_h(v) * v.max_level / v.level as int
}

/// The default viewport width scaled by the magnification.
pub open spec fn scaled_w(v: ZoomableImageViewer) -> int {
    vd_w(v) * v.max_level / v.level as int
}

/// A refill would be nearly instantaneous: the called-for cache height
/// stays under twice the doubled window height, so the cache-driven
/// scale-up is skipped.
pub open spec fn ignore_cache(v: ZoomableImageViewer) -> bool {
    scaled_h(v) < 4 * v.view.global_height
}

/// Whether predictive background refill is worthwhile: a finer level
/// than the coarsest available is shown and the vertical scale factor
/// reaches two.
pub open spec fn preload_of(v: ZoomableImageViewer) -> bool {
    !coarsest_available(v) && scaled_h(v) >= 4 * v.view.global_height
}

/// Viewport height after the window clamp and the absolute ceiling:
/// the scaled height, clamped to twice the window height, and to half
/// the cache ceiling when the scaled height reaches the ceiling.
pub open spec fn viewport_h_capped(v: ZoomableImageViewer) -> int {
    if scaled_h(v) >= CACHE_MAX {
        CACHE_MAX as int / 2
    } else if scaled_h(v) < 2 * v.view.global_height {
        scaled_h(v)
    } else {
        2 * v.view.global_height
    }
}

/// Viewport width before aspect correction: half the cache ceiling when
/// the scaled width reaches it and the cache scale-up is active, twice
/// the window width otherwise; at the coarsest available level the
/// default width is kept.
pub open spec fn viewport_w_of(v: ZoomableImageViewer) -> int {
    if coarsest_available(v) {
        vd_w(v)
    } else if scaled_w(v) >= CACHE_MAX as int / 2 && !ignore_cache(v) {
        CACHE_MAX as int / 2
    } else {
        2 * v.view.global_width
    }
}

/// Viewport height after aspect correction: when the scale-up is active
/// and the viewport's aspect ratio drifted from the default's, the
/// height is re-derived from the width and the window's ratio.
pub open spec fn viewport_h_adj(v: ZoomableImageViewer) -> int {
    if !coarsest_available(v) && !ignore_cache(v) && viewport_h_capped(v) * vd_w(v) != vd_h(v)
        * viewport_w_of(v) {
        viewport_w_of(v) * v.view.global_height / v.view.global_width as int
    } else {
        viewport_h_capped(v)
    }
}

/// Cache width: viewport width times the horizontal scale factor; at
/// the coarsest available level the default width.
pub open spec fn cache_w_of(v: ZoomableImageViewer) -> int {
    if coarsest_available(v) {
        vd_w(v)
    } else if scaled_w(v) >= CACHE_MAX as int / 2 && !ignore_cache(v) {
        CACHE_MAX as int
    } else {
        scaled_w(v)
    }
}

/// Cache height: viewport height times the vertical scale factor; at
/// the coarsest available level the default height.
pub open spec fn cache_h_of(v: ZoomableImageViewer) -> int {
    if coarsest_available(v) {
        vd_h(v)
    } else if scaled_h(v) >= CACHE_MAX {
        viewport_h_adj(v) * 2
    } else if scaled_h(v) < 2 * v.view.global_height {
        viewport_h_adj(v)
    } else {
        viewport_h_adj(v) * scaled_h(v) / (2 * v.view.global_height)
    }
}

/// Scale a viewport dimension back down when the requested level is
/// finer than the selected one.
pub open spec fn zoom_scaled(v: ZoomableImageViewer, d: int) -> int {
    if v.level < sel_level(v) {
        d * v.level / sel_level(v)
    } else {
        d
    }
}

/// Clamp a viewport dimension into the representable range.
pub open spec fn fix_dim(d: int) -> int {
    max_i(min_i(d, CACHE_DIM_LIMIT as int), 1)
}

/// Final planned viewport width.
#[verifier::opaque]
pub open spec fn plan_viewport_w(v: ZoomableImageViewer) -> int {
    fix_dim(zoom_scaled(v, viewport_w_of(v)))
}

/// Final planned viewport height.
#[verifier::opaque]
pub open spec fn plan_viewport_h(v: ZoomableImageViewer) -> int {
    fix_dim(zoom_scaled(v, viewport_h_adj(v)))
}

/// Final planned cache width: at least the viewport, at most the
/// representable bound.
#[verifier::opaque]
pub open spec fn plan_cache_w(v: ZoomableImageViewer) -> int {
    max_i(min_i(cache_w_of(v), CACHE_DIM_LIMIT as int), plan_viewport_w(v))
}

/// Final planned cache height.
#[verifier::opaque]
pub open spec fn plan_cache_h(v: ZoomableImageViewer) -> int {
    max_i(min_i(cache_h_of(v), CACHE_DIM_LIMIT as int), plan_viewport_h(v))
}

/// Session fields the geometry planner never touches.
pub open spec fn planner_frame_eq(a: ZoomableImageViewer, b: ZoomableImageViewer) -> bool {
    &&& a.level == b.level
    &&& a.max_level == b.max_level
    &&& a.levels@ == b.levels@
    &&& a.offsetx == b.offsetx
    &&& a.offsety == b.offsety
    &&& a.max_extents == b.max_extents
    &&& a.view.global_width == b.view.global_width
    &&& a.view.global_height == b.view.global_height
    &&& a.view.cache_posx == b.view.cache_posx
    &&& a.view.cache_posy == b.view.cache_posy
    &&& a.buffers.cache@ == b.buffers.cache@
    &&& a.buffers.mask_cache@ == b.buffers.mask_cache@
    &&& a.buffers.loadtime_cache@ == b.buffers.loadtime_cache@
    &&& a.buffers.update_ready == b.buffers.update_ready
    &&& a.current_border.cache == b.current_border.cache
    &&& a.current_border.edge == b.current_border.edge
    &&& a.show_pred == b.show_pred
    &&& a.error is Some == b.error is Some
    &&& a.tracker.center_correction_x == b.tracker.center_correction_x
    &&& a.tracker.center_correction_y == b.tracker.center_correction_y
}

/// Recompute the view geometry for the current level, window and image:
/// viewport size, cache size, the preload flag, the per-level extents
/// and the tracker's frame.  At the coarsest level the full downsampled
/// extent becomes viewport, cache and the new default, and the stable
/// position recenters on the image midpoint.
#[verifier::rlimit(100)]
pub fn update_zoom_props(data: &mut ZoomableImageViewer)
    requires
        old(data).wf(),
    ensures
        final(data).wf(),
        planner_frame_eq(*old(data), *final(data)),
        final(data).view.viewport_size.w == plan_viewport_w(*old(data)),
        final(data).view.viewport_size.h == plan_viewport_h(*old(data)),
        final(data).view.cache_size.w == plan_cache_w(*old(data)),
        final(data).view.cache_size.h == plan_cache_h(*old(data)),
        final(data).view.viewport_default.w == vd_w(*old(data)),
        final(data).view.viewport_default.h == vd_h(*old(data)),
        final(data).current_extents.w == v_width(*old(data)),
        final(data).current_extents.h == v_height(*old(data)),
        final(data).tracker.preload_possible == preload_of(*old(data)),
        final(data).tracker.cache_size_x == plan_cache_w(*old(data)),
        final(data).tracker.cache_size_y == plan_cache_h(*old(data)),
        final(data).tracker.viewport_size_x == plan_viewport_w(*old(data)),
        final(data).tracker.viewport_size_y == plan_viewport_h(*old(data)),
        final(data).tracker.max_global_x == old(data).max_extents.w,
        final(data).tracker.max_global_y == old(data).max_extents.h,
        final(data).tracker.cache_comp_x == sel_level(*old(data)),
        final(data).tracker.cache_comp_y == sel_level(*old(data)),
        old(data).level == old(data).max_level ==> final(data).tracker.current_x == old(data).max_extents.w / 2 && final(data).tracker.current_y == old(data).max_extents.h / 2,
        old(data).level != old(data).max_level ==> final(data).tracker.current_x == old(data).tracker.current_x && final(data).tracker.current_y == old(data).tracker.current_y,
{
    let ghost v0 = *old(data);
    let selection = find_next_greater_value(&data.levels, data.level);
    let level_idx: usize;
    let sel: i64;
    match selection {
        Some(p) => {
            level_idx = p.0;
            sel = p.1;
        },
        None => {
            level_idx = 0;
            sel = data.level;
        },
    }
    proof {
        if has_ge(v0.levels@, v0.level as int) {
            lemma_first_ge_unique(v0.levels@, v0.level as int, sel_index(v0), level_idx as int);
        }
        assert(sel == sel_level(v0));
        assert(level_idx as int == sel_index(v0));
        lemma_div_bound(v0.max_extents.w as int, tracking::GLOBAL_LIMIT as int, sel as int);
        lemma_div_bound(v0.max_extents.h as int, tracking::GLOBAL_LIMIT as int, sel as int);
        if v0.level == v0.max_level {
            lemma_div_bound(v0.max_extents.w as int, CACHE_DIM_LIMIT as int, sel as int);
            lemma_div_bound(v0.max_extents.h as int, CACHE_DIM_LIMIT as int, sel as int);
        }
    }
    // Extents at the selected level.
    let width: i64 = data.max_extents.w / sel;
    let height: i64 = data.max_extents.h / sel;
    proof {
        assert(width == v_width(v0));
        assert(height == v_height(v0));
    }

    // At the coarsest level the full downsampled extent becomes the new
    // default viewport, and the stable position recenters.
    if data.level == data.max_level {
        let tw: i64 = if width >= 1 {
            width
        } else {
            1
        };
        let th: i64 = if height >= 1 {
            height
        } else {
            1
        };
        data.view.viewport_default = Size { w: tw, h: th };
        data.tracker.current_x = data.max_extents.w / 2;
        data.tracker.current_y = data.max_extents.h / 2;
    }
    let vdw: i64 = data.view.viewport_default.w;
    let vdh: i64 = data.view.viewport_default.h;
    proof {
        assert(vdw == vd_w(v0));
        assert(vdh == vd_h(v0));
        lemma_mul_le(
            vdh as int,
            v0.max_level as int,
            CACHE_DIM_LIMIT as int,
            tracking::LEVEL_LIMIT as int,
        );
        lemma_mul_le(
            vdw as int,
            v0.max_level as int,
            CACHE_DIM_LIMIT as int,
            tracking::LEVEL_LIMIT as int,
        );
    }

    // The cache extents the level calls for.
    let sh: i64 = vdh * data.max_level / data.level;
    let sw: i64 = vdw * data.max_level / data.level;
    proof {
        lemma_div_bound(vdh as int * v0.max_level as int, SCALED_BOUND as int, v0.level as int);
        lemma_div_bound(vdw as int * v0.max_level as int, SCALED_BOUND as int, v0.level as int);
        assert(sh == scaled_h(v0));
        assert(sw == scaled_w(v0));
    }
    let twice_h: i64 = 2 * data.view.global_height;
    let twice_w: i64 = 2 * data.view.global_width;
    let ignore: bool = sh < 4 * data.view.global_height;
    let coarsest: bool = data.levels.len() > 0 && level_idx == data.levels.len() - 1;
    proof {
        assert(coarsest == coarsest_available(v0));
    }
    data.tracker.preload_possible = !coarsest && !ignore;
    proof {
        assert(ignore == ignore_cache(v0));
        assert(data.tracker.preload_possible == preload_of(v0));
    }

    // Viewport height: window clamp, then the absolute ceiling.
    let vh_capped: i64 = if sh >= CACHE_MAX {
        CACHE_MAX / 2
    } else if sh < twice_h {
        sh
    } else {
        twice_h
    };

    // Viewport width, aspect correction and the cache extents apply
    // only below the coarsest available level.
    let vw: i64;
    let vh_adj: i64;
    let cw: i64;
    let ch: i64;
    proof {
        assert(vh_capped == viewport_h_capped(v0));
    }
    if !coarsest {
        if sw >= CACHE_MAX / 2 && !ignore {
            vw = CACHE_MAX / 2;
            cw = CACHE_MAX;
        } else {
            vw = twice_w;
            cw = sw;
        }
        proof {
            lemma_mul_le(
                vh_capped as int,
                vdw as int,
                2 * tracking::LEVEL_LIMIT as int,
                CACHE_DIM_LIMIT as int,
            );
            lemma_mul_le(
                vdh as int,
                vw as int,
                CACHE_DIM_LIMIT as int,
                2 * tracking::LEVEL_LIMIT as int,
            );
            lemma_mul_le(
                vw as int,
                v0.view.global_height as int,
                2 * tracking::LEVEL_LIMIT as int,
                tracking::LEVEL_LIMIT as int,
            );
        }
        if !ignore && vh_capped * vdw != vdh * vw {
            vh_adj = vw * data.view.global_height / data.view.global_width;
            proof {
                lemma_div_le_self(
                    vw as int * v0.view.global_height as int,
                    v0.view.global_width as int,
                );
            }
        } else {
            vh_adj = vh_capped;
        }
        proof {
            assert(vw == viewport_w_of(v0));
            assert(cw == cache_w_of(v0));
            assert(vh_adj == viewport_h_adj(v0));
        }
        if sh >= CACHE_MAX {
            ch = vh_adj * 2;
        } else if sh < twice_h {
            ch = vh_adj;
        } else {
            proof {
                lemma_mul_le(vh_adj as int, sh as int, ADJ_BOUND as int, SCALED_BOUND as int);
            }
            let prod: i128 = (vh_adj as i128) * (sh as i128);
            let chq: i128 = prod / (twice_h as i128);
            proof {
                lemma_div_bound(vh_adj as int * sh as int, ADJ_BOUND as int * SCALED_BOUND as int, 2
                    * v0.view.global_height as int);
            }
            ch = if chq >= CACHE_DIM_LIMIT as i128 {
                CACHE_DIM_LIMIT
            } else {
                chq as i64
            };
        }
        proof {
            assert(min_i(ch as int, CACHE_DIM_LIMIT as int) == min_i(
                cache_h_of(v0),
                CACHE_DIM_LIMIT as int,
            ));
        }
    } else {
        vw = vdw;
        vh_adj = vh_capped;
        cw = vdw;
        ch = vdh;
        proof {
            assert(vw == viewport_w_of(v0));
            assert(cw == cache_w_of(v0));
            assert(vh_adj == viewport_h_adj(v0));
            assert(ch == cache_h_of(v0));
        }
    }

    // Scale the viewport back down when the requested level is finer
    // than the selected one.
    let vw_z: i64;
    let vh_z: i64;
    if data.level < sel {
        proof {
            lemma_mul_le(vw as int, v0.level as int, CACHE_DIM_LIMIT as int, tracking::LEVEL_LIMIT as int);
            lemma_mul_le(vh_adj as int, v0.level as int, ADJ_BOUND as int, tracking::LEVEL_LIMIT as int);
            lemma_div_bound(vw as int * v0.level as int, SCALED_BOUND as int, sel as int);
            lemma_div_bound(vh_adj as int * v0.level as int, ADJ_BOUND as int * tracking::LEVEL_LIMIT as int, sel as int);
        }
        vw_z = vw * data.level / sel;
        vh_z = vh_adj * data.level / sel;
    } else {
        vw_z = vw;
        vh_z = vh_adj;
    }
    proof {
        assert(vw_z == zoom_scaled(v0, viewport_w_of(v0)));
        assert(vh_z == zoom_scaled(v0, viewport_h_adj(v0)));
    }

    // Final sizes: viewport at least one pixel and at most the
    // representable bound, cache at least the viewport.
    let vpw: i64 = if vw_z > CACHE_DIM_LIMIT {
        CACHE_DIM_LIMIT
    } else if vw_z < 1 {
        1
    } else {
        vw_z
    };
    let vph: i64 = if vh_z > CACHE_DIM_LIMIT {
        CACHE_DIM_LIMIT
    } else if vh_z < 1 {
        1
    } else {
        vh_z
    };
    let csw: i64 = if cw > CACHE_DIM_LIMIT {
        CACHE_DIM_LIMIT
    } else if cw < vpw {
        vpw
    } else {
        cw
    };
    let csh: i64 = if ch > CACHE_DIM_LIMIT {
        CACHE_DIM_LIMIT
    } else if ch < vph {
        vph
    } else {
        ch
    };
    proof {
        reveal(plan_viewport_w);
        reveal(plan_viewport_h);
        reveal(plan_cache_w);
        reveal(plan_cache_h);
        assert(vpw == plan_viewport_w(v0));
        assert(vph == plan_viewport_h(v0));
        assert(csw == plan_cache_w(v0));
        assert(csh == plan_cache_h(v0));
        assert(1 <= vpw <= csw <= CACHE_DIM_LIMIT);
        assert(1 <= vph <= csh <= CACHE_DIM_LIMIT);
    }

    data.view.viewport_size = Size { w: vpw, h: vph };
    data.view.cache_size = Size { w: csw, h: csh };
    data.current_extents = Size { w: width, h: height };

    data.tracker.cache_size_x = csw;
    data.tracker.cache_size_y = csh;
    data.tracker.viewport_size_x = vpw;
    data.tracker.viewport_size_y = vph;
    data.tracker.max_global_x = data.max_extents.w;
    data.tracker.max_global_y = data.max_extents.h;
    data.tracker.cache_comp_x = sel;
    data.tracker.cache_comp_y = sel;
    proof {
        assert(data.tracker.wf());
        assert(data.wf());
    }
}

/// Image width at the selected level.
pub open spec fn v_width(v: ZoomableImageViewer) -> int {
    v.max_extents.w as int / sel_level(v)
}

/// Image height at the selected level.
pub open spec fn v_height(v: ZoomableImageViewer) -> int {
    v.max_extents.h as int / sel_level(v)
}

// --- Region planning ---------------------------------------------------

/// Everything a region fetch needs: the requested level, the image
/// extents the offsets refer to, the cache extents to fill, the global
/// offset of the pan center, and the available downsample levels.
pub struct PreloadRegionArgs {
    pub level: i64,
    pub max_extents: Size,
    pub cache_size: Size,
    pub offsetx: i64,
    pub offsety: i64,
    pub levels: Vec<i64>,
}

impl PreloadRegionArgs {
    /// Bounds that make the region arithmetic exact.
    pub open spec fn wf(self) -> bool {
        &&& 1 <= self.level <= tracking::LEVEL_LIMIT
        &&& forall|i: int|
            0 <= i < self.levels@.len() ==> 1 <= #[trigger] self.levels@[i]
                <= tracking::LEVEL_LIMIT
        &&& 1 <= self.cache_size.w <= CACHE_DIM_LIMIT
        &&& 1 <= self.cache_size.h <= CACHE_DIM_LIMIT
        &&& -tracking::GLOBAL_LIMIT <= self.offsetx <= tracking::GLOBAL_LIMIT
        &&& -tracking::GLOBAL_LIMIT <= self.offsety <= tracking::GLOBAL_LIMIT
    }
}

/// A planned region read: which pyramid level to read, where, how many
/// pixels, the canvas the short read is embedded in, and an optional
/// final resample target for the overlay plane.
pub struct RegionPlan {
    pub level_idx: usize,
    pub level_value: i64,
    pub address_x: i64,
    pub address_y: i64,
    pub read_w: i64,
    pub read_h: i64,
    pub out_w: i64,
    pub out_h: i64,
    pub scale_to: Option<Size>,
}

/// A plan is consistent when the read fits the canvas it is embedded
/// in, every dimension is at least one pixel, and the address is
/// inside the image's coordinate space.
pub open spec fn plan_wf(p: RegionPlan) -> bool {
    &&& 1 <= p.read_w <= p.out_w
    &&& 1 <= p.read_h <= p.out_h
    &&& 0 <= p.address_x
    &&& 0 <= p.address_y
}

/// The level value a region read uses: the selected level, or the
/// requested one when the selection fails.
pub open spec fn region_level(args: PreloadRegionArgs) -> int {
    sel_level_for(args.levels@, args.level as int)
}

/// The coarsest available level, taken as one when no levels are known.
pub open spec fn region_last_level(args: PreloadRegionArgs) -> int {
    if args.levels@.len() > 0 {
        args.levels@[args.levels@.len() - 1] as int
    } else {
        1
    }
}

/// Top-left corner of the requested region in level-zero coordinates:
/// the pan center moved back by half the cache, scaled to the level.
pub open spec fn region_pos_x(args: PreloadRegionArgs) -> int {
    args.offsetx - (args.cache_size.w / 2) * region_level(args)
}

/// Top-left y coordinate of the requested region.
pub open spec fn region_pos_y(args: PreloadRegionArgs) -> int {
    args.offsety - (args.cache_size.h / 2) * region_level(args)
}

/// Width of the in-bounds portion: a corner left of the image origin
/// shrinks the request by the overhang, except at the coarsest level;
/// at least one pixel is always requested.
pub open spec fn region_read_w(args: PreloadRegionArgs) -> int {
    let pos = region_pos_x(args);
    let w = args.cache_size.w as int;
    if pos < 0 && region_level(args) != region_last_level(args) {
        let shrink = (-pos) / region_level(args);
        if shrink >= w {
            1
        } else {
            w - shrink
        }
    } else {
        w
    }
}

/// Height of the in-bounds portion.
pub open spec fn region_read_h(args: PreloadRegionArgs) -> int {
    let pos = region_pos_y(args);
    let h = args.cache_size.h as int;
    if pos < 0 && region_level(args) != region_last_level(args) {
        let shrink = (-pos) / region_level(args);
        if shrink >= h {
            1
        } else {
            h - shrink
        }
    } else {
        h
    }
}

/// Plan a region read.  The primary plane reads the selected level at
/// the clipped corner and embeds the result bottom/right-aligned into
/// the full cache canvas.  The overlay plane (`load_pred`) reads the
/// overlay's own base level (the coarsest), with every extent rescaled
/// by `level / last_level`, and is finally resampled back to the cache
/// extents.
#[verifier::rlimit(50)]
pub fn plan_region(args: &PreloadRegionArgs, load_pred: bool) -> (plan: RegionPlan)
    requires
        args.wf(),
    ensures
        plan.level_value == region_level(*args),
        !load_pred ==> {
            &&& plan.level_idx as int == (if has_ge(args.levels@, args.level as int) {
                sel_index_for(args.levels@, args.level as int)
            } else if args.levels@.len() > 0 {
                args.levels@.len() - 1
            } else {
                0
            })
            &&& plan.address_x == max_i(region_pos_x(*args), 0)
            &&& plan.address_y == max_i(region_pos_y(*args), 0)
            &&& plan.read_w == region_read_w(*args)
            &&& plan.read_h == region_read_h(*args)
            &&& plan.out_w == args.cache_size.w
            &&& plan.out_h == args.cache_size.h
            &&& plan.scale_to is None
            &&& plan_wf(plan)
        },
        load_pred ==> {
            let lv = region_level(*args);
            let last = region_last_level(*args);
            &&& plan.level_idx == 0
            &&& plan.address_x == max_i(tracking::tdiv(region_pos_x(*args), last), 0)
            &&& plan.address_y == max_i(tracking::tdiv(region_pos_y(*args), last), 0)
            &&& plan.read_w == max_i(region_read_w(*args) * lv / last, 1)
            &&& plan.read_h == max_i(region_read_h(*args) * lv / last, 1)
            &&& plan.out_w == args.cache_size.w * lv / last
            &&& plan.out_h == args.cache_size.h * lv / last
            &&& plan.scale_to == Some(args.cache_size)
            &&& (plan.out_w >= 1 && plan.out_h >= 1 ==> plan_wf(plan))
        },
{
    let selection = find_next_greater_value(&args.levels, args.level);
    let level_idx: usize;
    let lv: i64;
    match selection {
        Some(p) => {
            level_idx = p.0;
            lv = p.1;
        },
        None => {
            level_idx = if args.levels.len() > 0 {
                args.levels.len() - 1
            } else {
                0
            };
            lv = args.level;
        },
    }
    proof {
        if has_ge(args.levels@, args.level as int) {
            lemma_first_ge_unique(
                args.levels@,
                args.level as int,
                sel_index_for(args.levels@, args.level as int),
                level_idx as int,
            );
        }
        assert(lv == region_level(*args));
        lemma_mul_le(
            args.cache_size.w as int / 2,
            lv as int,
            CACHE_DIM_LIMIT as int,
            tracking::LEVEL_LIMIT as int,
        );
        lemma_mul_le(
            args.cache_size.h as int / 2,
            lv as int,
            CACHE_DIM_LIMIT as int,
            tracking::LEVEL_LIMIT as int,
        );
    }
    let last: i64 = if args.levels.len() > 0 {
        args.levels[args.levels.len() - 1]
    } else {
        1
    };
    let posx: i64 = args.offsetx - (args.cache_size.w / 2) * lv;
    let posy: i64 = args.offsety - (args.cache_size.h / 2) * lv;
    let mut w: i64 = args.cache_size.w;
    let mut h: i64 = args.cache_size.h;
    if posy < 0 && lv != last {
        let shrink: i64 = (-posy) / lv;
        h = if shrink >= h {
            1
        } else {
            h - shrink
        };
    }
    if posx < 0 && lv != last {
        let shrink: i64 = (-posx) / lv;
        w = if shrink >= w {
            1
        } else {
            w - shrink
        };
    }
    proof {
        assert(w == region_read_w(*args));
        assert(h == region_read_h(*args));
    }
    if !load_pred {
        RegionPlan {
            level_idx,
            level_value: lv,
            address_x: if posx >= 0 {
                posx
            } else {
                0
            },
            address_y: if posy >= 0 {
                posy
            } else {
                0
            },
            read_w: w,
            read_h: h,
            out_w: args.cache_size.w,
            out_h: args.cache_size.h,
            scale_to: None,
        }
    } else {
        proof {
            lemma_mul_le(w as int, lv as int, CACHE_DIM_LIMIT as int, tracking::LEVEL_LIMIT as int);
            lemma_mul_le(h as int, lv as int, CACHE_DIM_LIMIT as int, tracking::LEVEL_LIMIT as int);
            lemma_mul_le(
                args.cache_size.w as int,
                lv as int,
                CACHE_DIM_LIMIT as int,
                tracking::LEVEL_LIMIT as int,
            );
            lemma_mul_le(
                args.cache_size.h as int,
                lv as int,
                CACHE_DIM_LIMIT as int,
                tracking::LEVEL_LIMIT as int,
            );
            lemma_mul_le(w as int, lv as int, args.cache_size.w as int, lv as int);
            lemma_mul_le(h as int, lv as int, args.cache_size.h as int, lv as int);
            tracking::lemma_div_mono(
                w as int * lv as int,
                args.cache_size.w as int * lv as int,
                last as int,
            );
            tracking::lemma_div_mono(
                h as int * lv as int,
                args.cache_size.h as int * lv as int,
                last as int,
            );
            lemma_div_bound(w as int * lv as int, SCALED_BOUND as int, last as int);
            lemma_div_bound(h as int * lv as int, SCALED_BOUND as int, last as int);
            lemma_div_bound(
                args.cache_size.w as int * lv as int,
                SCALED_BOUND as int,
                last as int,
            );
            lemma_div_bound(
                args.cache_size.h as int * lv as int,
                SCALED_BOUND as int,
                last as int,
            );
        }
        let rw: i64 = w * lv / last;
        let rh: i64 = h * lv / last;
        let ow: i64 = args.cache_size.w * lv / last;
        let oh: i64 = args.cache_size.h * lv / last;
        let ax: i64 = tdiv_i64(posx, last);
        let ay: i64 = tdiv_i64(posy, last);
        RegionPlan {
            level_idx: 0,
            level_value: lv,
            address_x: if ax >= 0 {
                ax
            } else {
                0
            },
            address_y: if ay >= 0 {
                ay
            } else {
                0
            },
            read_w: if rw >= 1 {
                rw
            } else {
                1
            },
            read_h: if rh >= 1 {
                rh
            } else {
                1
            },
            out_w: ow,
            out_h: oh,
            scale_to: Some(args.cache_size),
        }
    }
}

// --- Region assembly ---------------------------------------------------

/// Largest pixel dimension the buffer arithmetic accepts.
pub const PIXEL_DIM_LIMIT: i64 = 0x4000;

/// A flattened RGBA index stays inside the buffer.
proof fn lemma_flat_index(a: int, b: int, c: int, w: int, h: int)
    by (nonlinear_arith)
    requires
        0 <= a < h,
        0 <= b < w,
        0 <= c < 4,
    ensures
        0 <= (a * w + b) * 4 + c < w * h * 4,
{
}

/// Recover row, column and channel from a flattened RGBA index.
proof fn lemma_unflatten(k: int, w: int, h: int)
    by (nonlinear_arith)
    requires
        0 <= k < w * h * 4,
        1 <= w,
        1 <= h,
    ensures
        0 <= k % 4 < 4,
        0 <= (k / 4) % w < w,
        0 <= (k / 4) / w < h,
        ((k / 4) / w * w + (k / 4) % w) * 4 + k % 4 == k,
{
}

/// A nearest-neighbour source coordinate stays inside the source.
proof fn lemma_scale_index(a: int, b: int, n: int)
    by (nonlinear_arith)
    requires
        0 <= a < n,
        1 <= b,
    ensures
        0 <= a * b / n < b,
{
}

/// The buffer produced by embedding a `sw` by `sh` RGBA image at
/// `(x, y)` inside a `ow` by `oh` canvas whose remaining pixels are
/// zero.
pub open spec fn embed_spec(src: Seq<u8>, sw: int, sh: int, x: int, y: int, ow: int, oh: int)
    -> Seq<u8> {
    Seq::new((ow * oh * 4) as nat, |k: int|
        {
            let c = k % 4;
            let col = (k / 4) % ow;
            let row = (k / 4) / ow;
            if x <= col < x + sw && y <= row < y + sh {
                src[((row - y) * sw + (col - x)) * 4 + c]
            } else {
                0u8
            }
        })
}

/// The buffer produced by resampling a `sw` by `sh` RGBA image to
/// `ow` by `oh` with nearest-neighbour lookup.
pub open spec fn scale_spec(src: Seq<u8>, sw: int, sh: int, ow: int, oh: int) -> Seq<u8> {
    Seq::new((ow * oh * 4) as nat, |k: int|
        {
            let c = k % 4;
            let col = (k / 4) % ow;
            let row = (k / 4) / ow;
            src[(row * sh / oh * sw + col * sw / ow) * 4 + c]
        })
}

/// Embed an RGBA buffer at `(x, y)` inside a zero canvas.
pub fn embed_rgba(src: &Vec<u8>, sw: usize, sh: usize, x: usize, y: usize, ow: usize, oh: usize)
    -> (r: Vec<u8>)
    requires
        src@.len() == sw * sh * 4,
        1 <= sw,
        1 <= sh,
        x + sw <= ow,
        y + sh <= oh,
        ow <= PIXEL_DIM_LIMIT,
        oh <= PIXEL_DIM_LIMIT,
    ensures
        r@ == embed_spec(src@, sw as int, sh as int, x as int, y as int, ow as int, oh as int),
        r@.len() == ow * oh * 4,
{
    proof {
        lemma_mul_le(ow as int, oh as int, PIXEL_DIM_LIMIT as int, PIXEL_DIM_LIMIT as int);
    }
    let total: usize = ow * oh * 4;
    let mut out: Vec<u8> = Vec::new();
    let mut k: usize = 0;
    while k < total
        invariant
            src@.len() == sw * sh * 4,
            1 <= sw,
            1 <= sh,
            x + sw <= ow,
            y + sh <= oh,
            ow <= PIXEL_DIM_LIMIT,
            oh <= PIXEL_DIM_LIMIT,
            total == ow * oh * 4,
            0 <= k <= total,
            out@.len() == k,
            forall|m: int|
                0 <= m < k ==> out@[m] == embed_spec(
                    src@,
                    sw as int,
                    sh as int,
                    x as int,
                    y as int,
                    ow as int,
                    oh as int,
                )[m],
        decreases total - k,
    {
        proof {
            lemma_mul_le(ow as int, oh as int, PIXEL_DIM_LIMIT as int, PIXEL_DIM_LIMIT as int);
            lemma_mul_le(sw as int, sh as int, ow as int, oh as int);
            lemma_unflatten(k as int, ow as int, oh as int);
        }
        let c: usize = k % 4;
        let col: usize = (k / 4) % ow;
        let row: usize = (k / 4) / ow;
        let val: u8 = if x <= col && col < x + sw && y <= row && row < y + sh {
            proof {
                lemma_flat_index(
                    row as int - y as int,
                    col as int - x as int,
                    c as int,
                    sw as int,
                    sh as int,
                );
            }
            src[((row - y) * sw + (col - x)) * 4 + c]
        } else {
            0u8
        };
        out.push(val);
        k = k + 1;
    }
    proof {
        assert(out@ =~= embed_spec(
            src@,
            sw as int,
            sh as int,
            x as int,
            y as int,
            ow as int,
            oh as int,
        ));
    }
    out
}

/// Resample an RGBA buffer to a new extent with nearest-neighbour
/// lookup.
pub fn scale_rgba(src: &Vec<u8>, sw: usize, sh: usize, ow: usize, oh: usize) -> (r: Vec<u8>)
    requires
        src@.len() == sw * sh * 4,
        1 <= sw <= PIXEL_DIM_LIMIT,
        1 <= sh <= PIXEL_DIM_LIMIT,
        1 <= ow <= PIXEL_DIM_LIMIT,
        1 <= oh <= PIXEL_DIM_LIMIT,
    ensures
        r@ == scale_spec(src@, sw as int, sh as int, ow as int, oh as int),
        r@.len() == ow * oh * 4,
{
    proof {
        lemma_mul_le(ow as int, oh as int, PIXEL_DIM_LIMIT as int, PIXEL_DIM_LIMIT as int);
    }
    let total: usize = ow * oh * 4;
    let mut out: Vec<u8> = Vec::new();
    let mut k: usize = 0;
    while k < total
        invariant
            src@.len() == sw * sh * 4,
            1 <= sw <= PIXEL_DIM_LIMIT,
            1 <= sh <= PIXEL_DIM_LIMIT,
            1 <= ow <= PIXEL_DIM_LIMIT,
            1 <= oh <= PIXEL_DIM_LIMIT,
            total == ow * oh * 4,
            0 <= k <= total,
            out@.len() == k,
            forall|m: int|
                0 <= m < k ==> out@[m] == scale_spec(
                    src@,
                    sw as int,
                    sh as int,
                    ow as int,
                    oh as int,
                )[m],
        decreases total - k,
    {
        proof {
            lemma_mul_le(ow as int, oh as int, PIXEL_DIM_LIMIT as int, PIXEL_DIM_LIMIT as int);
            lemma_mul_le(sw as int, sh as int, PIXEL_DIM_LIMIT as int, PIXEL_DIM_LIMIT as int);
            lemma_unflatten(k as int, ow as int, oh as int);
            lemma_mul_le(
                (k as int / 4) / ow as int,
                sh as int,
                PIXEL_DIM_LIMIT as int,
                PIXEL_DIM_LIMIT as int,
            );
            lemma_mul_le(
                (k as int / 4) % ow as int,
                sw as int,
                PIXEL_DIM_LIMIT as int,
                PIXEL_DIM_LIMIT as int,
            );
            lemma_scale_index((k as int / 4) / ow as int, sh as int, oh as int);
            lemma_scale_index((k as int / 4) % ow as int, sw as int, ow as int);
            lemma_flat_index(
                ((k as int / 4) / ow as int) * sh as int / oh as int,
                ((k as int / 4) % ow as int) * sw as int / ow as int,
                k as int % 4,
                sw as int,
                sh as int,
            );
        }
        let c: usize = k % 4;
        let col: usize = (k / 4) % ow;
        let row: usize = (k / 4) / ow;
        let val: u8 = src[(row * sh / oh * sw + col * sw / ow) * 4 + c];
        out.push(val);
        k = k + 1;
    }
    proof {
        assert(out@ =~= scale_spec(src@, sw as int, sh as int, ow as int, oh as int));
    }
    out
}

/// What a finished region buffer holds: the fetched bytes embedded
/// bottom/right-aligned in the cache canvas, resampled to the overlay
/// target when one is set.
pub open spec fn assembled_spec(p: RegionPlan, bytes: Seq<u8>) -> Seq<u8> {
    let canvas = embed_spec(
        bytes,
        p.read_w as int,
        p.read_h as int,
        p.out_w - p.read_w,
        p.out_h - p.read_h,
        p.out_w as int,
        p.out_h as int,
    );
    match p.scale_to {
        Some(t) => scale_spec(canvas, p.out_w as int, p.out_h as int, t.w as int, t.h as int),
        None => canvas,
    }
}

/// Pad a fetched region up to the planned canvas by embedding it at
/// the bottom/right-aligned position the clipped corner calls for, and
/// resample the overlay plane back to the cache extents.  The result
/// always has exactly the planned extents, whatever the fetch
/// returned.
pub fn assemble_region(plan: &RegionPlan, bytes: &Vec<u8>) -> (r: Vec<u8>)
    requires
        plan_wf(*plan),
        bytes@.len() == plan.read_w * plan.read_h * 4,
        plan.out_w <= PIXEL_DIM_LIMIT,
        plan.out_h <= PIXEL_DIM_LIMIT,
        plan.scale_to matches Some(t) ==> 1 <= t.w <= PIXEL_DIM_LIMIT && 1 <= t.h
            <= PIXEL_DIM_LIMIT,
    ensures
        r@ == assembled_spec(*plan, bytes@),
        r@.len() == (match plan.scale_to {
            Some(t) => t.w * t.h * 4,
            None => plan.out_w * plan.out_h * 4,
        }),
{
    let sw: usize = plan.read_w as usize;
    let sh: usize = plan.read_h as usize;
    let ow: usize = plan.out_w as usize;
    let oh: usize = plan.out_h as usize;
    let canvas = embed_rgba(bytes, sw, sh, ow - sw, oh - sh, ow, oh);
    match &plan.scale_to {
        Some(t) => {
            let tw: usize = t.w as usize;
            let th: usize = t.h as usize;
            scale_rgba(&canvas, ow, oh, tw, th)
        },
        None => canvas,
    }
}

/// A region fetched entirely outside the image holds only zero bytes,
/// and what it assembles to is an all-zero buffer of the planned
/// extents.
pub proof fn lemma_assembled_zero(p: RegionPlan, bytes: Seq<u8>)
    requires
        plan_wf(p),
        bytes.len() == p.read_w * p.read_h * 4,
        forall|i: int| 0 <= i < bytes.len() ==> bytes[i] == 0u8,
        p.scale_to matches Some(t) ==> 1 <= t.w && 1 <= t.h,
    ensures
        forall|i: int|
            0 <= i < assembled_spec(p, bytes).len() ==> assembled_spec(p, bytes)[i] == 0u8,
{
    let canvas = embed_spec(
        bytes,
        p.read_w as int,
        p.read_h as int,
        p.out_w - p.read_w,
        p.out_h - p.read_h,
        p.out_w as int,
        p.out_h as int,
    );
    assert forall|i: int| 0 <= i < canvas.len() implies canvas[i] == 0u8 by {
        lemma_unflatten(i, p.out_w as int, p.out_h as int);
        let row = (i / 4) / p.out_w as int;
        let col = (i / 4) % p.out_w as int;
        if p.out_w - p.read_w <= col < p.out_w && p.out_h - p.read_h <= row < p.out_h {
            lemma_flat_index(
                row - (p.out_h - p.read_h),
                col - (p.out_w - p.read_w),
                i % 4,
                p.read_w as int,
                p.read_h as int,
            );
        }
    }
    match p.scale_to {
        Some(t) => {
            let scaled = scale_spec(canvas, p.out_w as int, p.out_h as int, t.w as int, t.h as int);
            assert forall|i: int| 0 <= i < scaled.len() implies scaled[i] == 0u8 by {
                lemma_unflatten(i, t.w as int, t.h as int);
                lemma_scale_index((i / 4) / t.w as int, p.out_h as int, t.h as int);
                lemma_scale_index((i / 4) % t.w as int, p.out_w as int, t.w as int);
                lemma_flat_index(
                    ((i / 4) / t.w as int) * p.out_h as int / t.h as int,
                    ((i / 4) % t.w as int) * p.out_w as int / t.w as int,
                    i % 4,
                    p.out_w as int,
                    p.out_h as int,
                );
            }
        },
        None => {},
    }
}

// --- Offsets -----------------------------------------------------------

/// Whether a border value is one of the "Limit" variants, reached at
/// the global image edge.
pub open spec fn is_limit_border(b: Borders) -> bool {
    match b {
        Borders::BottomLimit | Borders::BottomLeftLimit | Borders::BottomRightLimit
            | Borders::TopLimit | Borders::TopLeftLimit | Borders::TopRightLimit
            | Borders::LeftLimit | Borders::RightLimit => true,
        _ => false,
    }
}

/// The level that was selected for the previous requested level.
pub open spec fn old_sel_of(v: ZoomableImageViewer, old_level: i64) -> int {
    sel_level_for(v.levels@, old_level as int)
}

/// Cache-pan trigger distance used when reconciling a level change:
/// half the distance between the cache half-width and the half-width of
/// the viewport the old zoom ratio implies.
pub open spec fn level_change_trig_x(v: ZoomableImageViewer, old_level: i64) -> int {
    (v.view.cache_size.w / 2 - (v.view.cache_size.w / 2) * old_level / old_sel_of(v, old_level)
        / 2) / 2
}

/// Vertical counterpart of the reconciliation trigger distance.
pub open spec fn level_change_trig_y(v: ZoomableImageViewer, old_level: i64) -> int {
    (v.view.cache_size.h / 2 - (v.view.cache_size.h / 2) * old_level / old_sel_of(v, old_level)
        / 2) / 2
}

/// Global x offset after pulling excess cache pan back into it: a cache
/// pan beyond the trigger distance moves the offset a full trigger span
/// toward that side, except at the coarsest level.
pub open spec fn shifted_off_x(v: ZoomableImageViewer, old_level: i64) -> int {
    let cc = level_change_trig_x(v, old_level);
    if old_sel_of(v, old_level) != v.max_level {
        if v.view.cache_posx > cc {
            v.offsetx - cc * 2 * old_sel_of(v, old_level)
        } else if v.view.cache_posx < -cc {
            v.offsetx + cc * 2 * old_sel_of(v, old_level)
        } else {
            v.offsetx as int
        }
    } else {
        v.offsetx as int
    }
}

/// Global y offset after pulling excess cache pan back into it.
pub open spec fn shifted_off_y(v: ZoomableImageViewer, old_level: i64) -> int {
    let cc = level_change_trig_y(v, old_level);
    if old_sel_of(v, old_level) != v.max_level {
        if v.view.cache_posy > cc {
            v.offsety - cc * 2 * old_sel_of(v, old_level)
        } else if v.view.cache_posy < -cc {
            v.offsety + cc * 2 * old_sel_of(v, old_level)
        } else {
            v.offsety as int
        }
    } else {
        v.offsety as int
    }
}

/// Global x offset a level change settles on, before the final clip:
/// with preload the cache pan folds into the offset (from the image
/// midpoint when leaving the coarsest level); without preload the
/// offset recenters on the image midpoint.
#[verifier::opaque]
pub open spec fn level_change_off_x(v: ZoomableImageViewer, old_level: i64) -> int {
    if v.tracker.preload_possible {
        if old_sel_of(v, old_level) != v.max_level {
            shifted_off_x(v, old_level) + v.view.cache_posx * old_sel_of(v, old_level)
        } else {
            v.max_extents.w / 2 + v.view.cache_posx * old_sel_of(v, old_level)
        }
    } else {
        v.max_extents.w as int / 2
    }
}

/// Global y offset a level change settles on, before the final clip.
#[verifier::opaque]
pub open spec fn level_change_off_y(v: ZoomableImageViewer, old_level: i64) -> int {
    if v.tracker.preload_possible {
        if old_sel_of(v, old_level) != v.max_level {
            shifted_off_y(v, old_level) + v.view.cache_posy * old_sel_of(v, old_level)
        } else {
            v.max_extents.h / 2 + v.view.cache_posy * old_sel_of(v, old_level)
        }
    } else {
        v.max_extents.h as int / 2
    }
}

/// Cache x position a level change settles on, before the final clip:
/// zero with preload; otherwise the pan inverted and rescaled to the
/// new level against the distance from the image midpoint.
#[verifier::opaque]
pub open spec fn level_change_pos_x(v: ZoomableImageViewer, old_level: i64) -> int {
    if v.tracker.preload_possible {
        0
    } else {
        let corr = if old_sel_of(v, old_level) != v.max_level {
            v.max_extents.w / 2 - shifted_off_x(v, old_level)
        } else {
            0
        };
        -tracking::tdiv(
            corr - v.view.cache_posx * old_sel_of(v, old_level),
            sel_level(v),
        )
    }
}

/// Cache y position a level change settles on, before the final clip.
/// The vertical pan is rescaled against the old level's ratio rather
/// than multiplied out.
#[verifier::opaque]
pub open spec fn level_change_pos_y(v: ZoomableImageViewer, old_level: i64) -> int {
    if v.tracker.preload_possible {
        0
    } else {
        let corr = if old_sel_of(v, old_level) != v.max_level {
            v.max_extents.h / 2 - shifted_off_y(v, old_level)
        } else {
            0
        };
        -tracking::tdiv(
            corr - tracking::tdiv(v.view.cache_posy as int, old_sel_of(v, old_level)),
            sel_level(v),
        )
    }
}

/// True division that truncates toward zero, over machine integers.
fn tdiv_i64(a: i64, b: i64) -> (r: i64)
    requires
        1 <= b,
        -0x4000_0000_0000_0000 < a < 0x4000_0000_0000_0000,
    ensures
        r == tracking::tdiv(a as int, b as int),
        tracking::abs_i(r as int) <= tracking::abs_i(a as int),
{
    proof {
        lemma_div_le_self(tracking::abs_i(a as int), b as int);
    }
    if a >= 0 {
        a / b
    } else {
        -((-a) / b)
    }
}

/// Fold the cache pan into the global offset, or invert and rescale
/// it, after a level change.  `os` and `nl` are the levels selected for
/// the old and the new requested level.  The resulting offsets are not
/// yet clipped to the image extents.
#[verifier::rlimit(100)]
fn fold_cache_pan(data: &mut ZoomableImageViewer, old_level: i64, os: i64, nl: i64)
    requires
        old(data).wf(),
        1 <= old_level <= tracking::LEVEL_LIMIT,
        old_level <= os,
        1 <= os <= tracking::LEVEL_LIMIT,
        1 <= nl <= tracking::LEVEL_LIMIT,
        os as int == old_sel_of(*old(data), old_level),
        nl as int == sel_level(*old(data)),
    ensures
        final(data).offsetx == level_change_off_x(*old(data), old_level),
        final(data).offsety == level_change_off_y(*old(data), old_level),
        final(data).view.cache_posx == tracking::clamp_i(
            level_change_pos_x(*old(data), old_level),
            -old(data).tracker.half_span_x(),
            old(data).tracker.half_span_x(),
        ),
        final(data).view.cache_posy == tracking::clamp_i(
            level_change_pos_y(*old(data), old_level),
            -old(data).tracker.half_span_y(),
            old(data).tracker.half_span_y(),
        ),
        os == old(data).max_level && old(data).view.cache_posx == 0 && old(data).view.cache_posy
            == 0 ==> final(data).offsetx == old(data).max_extents.w / 2 && final(data).offsety
            == old(data).max_extents.h / 2 && final(data).view.cache_posx == 0 && final(data).view.cache_posy == 0,
        final(data).tracker == old(data).tracker,
        final(data).current_border.cache == old(data).current_border.cache,
        final(data).current_border.edge == old(data).current_border.edge,
        final(data).level == old(data).level,
        final(data).max_level == old(data).max_level,
        final(data).levels@ == old(data).levels@,
        final(data).max_extents == old(data).max_extents,
        final(data).view.cache_size == old(data).view.cache_size,
        final(data).view.viewport_size == old(data).view.viewport_size,
        final(data).view.viewport_default == old(data).view.viewport_default,
        final(data).view.global_width == old(data).view.global_width,
        final(data).view.global_height == old(data).view.global_height,
        final(data).buffers.cache@ == old(data).buffers.cache@,
        final(data).buffers.loadtime_cache@ == old(data).buffers.loadtime_cache@,
        final(data).buffers.update_ready == old(data).buffers.update_ready,
        final(data).show_pred == old(data).show_pred,
        final(data).error is Some == old(data).error is Some,
{
    let ghost v0 = *old(data);
    // Trigger distances from the old zoom ratio.
    let half_w: i64 = data.view.cache_size.w / 2;
    let half_h: i64 = data.view.cache_size.h / 2;
    proof {
        lemma_mul_le(half_w as int, old_level as int, half_w as int, os as int);
        lemma_mul_le(half_h as int, old_level as int, half_h as int, os as int);
        lemma_mul_le(
            half_w as int,
            old_level as int,
            CACHE_DIM_LIMIT as int,
            tracking::LEVEL_LIMIT as int,
        );
        lemma_mul_le(
            half_h as int,
            old_level as int,
            CACHE_DIM_LIMIT as int,
            tracking::LEVEL_LIMIT as int,
        );
        lemma_div_bound(half_w as int * old_level as int, half_w as int, os as int);
        lemma_div_bound(half_h as int * old_level as int, half_h as int, os as int);
    }
    let vs_x: i64 = half_w * old_level / os;
    let vs_y: i64 = half_h * old_level / os;
    let cc_x: i64 = (half_w - vs_x / 2) / 2;
    let cc_y: i64 = (half_h - vs_y / 2) / 2;
    proof {
        assert(cc_x == level_change_trig_x(v0, old_level));
        assert(cc_y == level_change_trig_y(v0, old_level));
        lemma_mul_le(
            2 * cc_x as int,
            os as int,
            2 * CACHE_DIM_LIMIT as int,
            tracking::LEVEL_LIMIT as int,
        );
        lemma_mul_le(
            2 * cc_y as int,
            os as int,
            2 * CACHE_DIM_LIMIT as int,
            tracking::LEVEL_LIMIT as int,
        );
    }

    // Pull excess cache pan back into the global offset.
    if os != data.max_level {
        if data.view.cache_posx > cc_x {
            data.offsetx = data.offsetx - cc_x * 2 * os;
        }
        if data.view.cache_posx < -cc_x {
            data.offsetx = data.offsetx + cc_x * 2 * os;
        }
        if data.view.cache_posy > cc_y {
            data.offsety = data.offsety - cc_y * 2 * os;
        }
        if data.view.cache_posy < -cc_y {
            data.offsety = data.offsety + cc_y * 2 * os;
        }
    }
    proof {
        assert(data.offsetx == shifted_off_x(v0, old_level));
        assert(data.offsety == shifted_off_y(v0, old_level));
        tracking::lemma_mul_bounds(
            v0.view.cache_posx as int,
            os as int,
            CACHE_DIM_LIMIT as int,
            tracking::LEVEL_LIMIT as int,
        );
        tracking::lemma_mul_bounds(
            v0.view.cache_posy as int,
            os as int,
            CACHE_DIM_LIMIT as int,
            tracking::LEVEL_LIMIT as int,
        );
    }

    if data.tracker.preload_possible {
        if os != data.max_level {
            data.offsetx = data.offsetx + data.view.cache_posx * os;
            data.offsety = data.offsety + data.view.cache_posy * os;
        } else {
            data.offsetx = data.max_extents.w / 2 + data.view.cache_posx * os;
            data.offsety = data.max_extents.h / 2 + data.view.cache_posy * os;
        }
        data.view.cache_posx = 0;
        data.view.cache_posy = 0;
        proof {
            reveal(level_change_off_x);
            reveal(level_change_off_y);
            reveal(level_change_pos_x);
            reveal(level_change_pos_y);
            assert(data.offsetx == level_change_off_x(v0, old_level));
            assert(data.offsety == level_change_off_y(v0, old_level));
            assert(data.view.cache_posx == level_change_pos_x(v0, old_level));
            assert(data.view.cache_posy == level_change_pos_y(v0, old_level));
            if os == v0.max_level && v0.view.cache_posx == 0 && v0.view.cache_posy == 0 {
                assert(data.offsetx == v0.max_extents.w / 2);
                assert(data.offsety == v0.max_extents.h / 2);
            }
        }
    } else {
        let mut correction_x: i64 = 0;
        let mut correction_y: i64 = 0;
        if os != data.max_level {
            correction_x = data.max_extents.w / 2 - data.offsetx;
            correction_y = data.max_extents.h / 2 - data.offsety;
        }
        let posy_scaled: i64 = tdiv_i64(data.view.cache_posy, os);
        let px: i64 = tdiv_i64(correction_x - data.view.cache_posx * os, nl);
        let py: i64 = tdiv_i64(correction_y - posy_scaled, nl);
        data.view.cache_posx = -px;
        data.view.cache_posy = -py;
        data.offsetx = data.max_extents.w / 2;
        data.offsety = data.max_extents.h / 2;
        let mut cx: i64 = data.view.cache_posx;
        let mut cy: i64 = data.view.cache_posy;
        data.tracker.clip_cache_coords(&mut cx, &mut cy);
        data.view.cache_posx = cx;
        data.view.cache_posy = cy;
        proof {
            reveal(level_change_off_x);
            reveal(level_change_off_y);
            reveal(level_change_pos_x);
            reveal(level_change_pos_y);
            assert(data.offsetx == level_change_off_x(v0, old_level));
            assert(data.offsety == level_change_off_y(v0, old_level));
            assert(data.view.cache_posx == tracking::clamp_i(
                level_change_pos_x(v0, old_level),
                -v0.tracker.half_span_x(),
                v0.tracker.half_span_x(),
            ));
            assert(data.view.cache_posy == tracking::clamp_i(
                level_change_pos_y(v0, old_level),
                -v0.tracker.half_span_y(),
                v0.tracker.half_span_y(),
            ));
            if os == v0.max_level && v0.view.cache_posx == 0 && v0.view.cache_posy == 0 {
                assert(data.offsetx == v0.max_extents.w / 2);
                assert(data.offsety == v0.max_extents.h / 2);
                assert(data.view.cache_posx == 0);
                assert(data.view.cache_posy == 0);
            }
        }
    }
}

/// Reconcile offsets after the active level changed: pull excess cache
/// pan back into the global offset, fold the pan into the offset or
/// invert and rescale it depending on whether preload is possible, clip
/// both coordinate spaces, and reset the border to the center unless
/// the previous border was at the image limit.  Corrections are cleared
/// and the stable position follows the new offset.
#[verifier::rlimit(100)]
pub fn update_offsets(data: &mut ZoomableImageViewer, old_level: i64)
    requires
        old(data).wf(),
        1 <= old_level <= tracking::LEVEL_LIMIT,
    ensures
        final(data).wf(),
        final(data).offsetx == tracking::clamp_i(
            level_change_off_x(*old(data), old_level),
            0,
            old(data).tracker.max_global_x as int,
        ),
        final(data).offsety == tracking::clamp_i(
            level_change_off_y(*old(data), old_level),
            0,
            old(data).tracker.max_global_y as int,
        ),
        final(data).view.cache_posx == tracking::clamp_i(
            level_change_pos_x(*old(data), old_level),
            -old(data).tracker.half_span_x(),
            old(data).tracker.half_span_x(),
        ),
        final(data).view.cache_posy == tracking::clamp_i(
            level_change_pos_y(*old(data), old_level),
            -old(data).tracker.half_span_y(),
            old(data).tracker.half_span_y(),
        ),
        old_sel_of(*old(data), old_level) == old(data).max_level && old(data).view.cache_posx == 0
            && old(data).view.cache_posy == 0 ==> final(data).offsetx == old(data).max_extents.w
            / 2 && final(data).offsety == old(data).max_extents.h / 2 && final(data).view.cache_posx == 0
            && final(data).view.cache_posy == 0,
        final(data).tracker.current_x == final(data).offsetx,
        final(data).tracker.current_y == final(data).offsety,
        final(data).tracker.center_correction_x == 0,
        final(data).tracker.center_correction_y == 0,
        old(data).tracker.same_frame(final(data).tracker),
        !is_limit_border(old(data).current_border.cache) ==> final(data).current_border.cache
            == Borders::Center && final(data).current_border.edge == Borders::Center,
        is_limit_border(old(data).current_border.cache) ==> final(data).current_border.cache
            == old(data).current_border.cache && final(data).current_border.edge == old(data).current_border.edge,
        final(data).level == old(data).level,
        final(data).max_level == old(data).max_level,
        final(data).levels@ == old(data).levels@,
        final(data).max_extents == old(data).max_extents,
        final(data).view.cache_size == old(data).view.cache_size,
        final(data).view.viewport_size == old(data).view.viewport_size,
        final(data).view.viewport_default == old(data).view.viewport_default,
        final(data).view.global_width == old(data).view.global_width,
        final(data).view.global_height == old(data).view.global_height,
        final(data).buffers.cache@ == old(data).buffers.cache@,
        final(data).buffers.loadtime_cache@ == old(data).buffers.loadtime_cache@,
        final(data).buffers.update_ready == old(data).buffers.update_ready,
        final(data).show_pred == old(data).show_pred,
{
    let ghost v0 = *old(data);
    let selection = find_next_greater_value(&data.levels, data.level);
    let nl_idx: usize;
    let nl: i64;
    match selection {
        Some(p) => {
            nl_idx = p.0;
            nl = p.1;
        },
        None => {
            nl_idx = 0;
            nl = data.level;
        },
    }
    let old_selection = find_next_greater_value(&data.levels, old_level);
    let os_idx: usize;
    let os: i64;
    match old_selection {
        Some(p) => {
            os_idx = p.0;
            os = p.1;
        },
        None => {
            os_idx = 0;
            os = old_level;
        },
    }
    proof {
        if has_ge(v0.levels@, v0.level as int) {
            lemma_first_ge_unique(
                v0.levels@,
                v0.level as int,
                sel_index_for(v0.levels@, v0.level as int),
                nl_idx as int,
            );
        }
        if has_ge(v0.levels@, old_level as int) {
            lemma_first_ge_unique(
                v0.levels@,
                old_level as int,
                sel_index_for(v0.levels@, old_level as int),
                os_idx as int,
            );
        }
        assert(nl == sel_level(v0));
        assert(os == old_sel_of(v0, old_level));
    }

    let is_edge = is_limit(&data.current_border.cache);
    fold_cache_pan(data, old_level, os, nl);
    let mut gx: i64 = data.offsetx;
    let mut gy: i64 = data.offsety;
    data.tracker.clip_global_coords(&mut gx, &mut gy);
    data.offsetx = gx;
    data.offsety = gy;
    if !is_edge {
        data.current_border = Border { cache: Borders::Center, edge: Borders::Center };
    }
    data.tracker.center_correction_x = 0;
    data.tracker.center_correction_y = 0;
    data.tracker.current_x = data.offsetx;
    data.tracker.current_y = data.offsety;
    proof {
        assert(data.tracker.wf());
        assert(data.wf());
    }
}

/// Whether the border is one of the "Limit" variants.
fn is_limit(b: &Borders) -> (r: bool)
    ensures
        r == is_limit_border(*b),
{
    match b {
        Borders::BottomLimit | Borders::BottomLeftLimit | Borders::BottomRightLimit
            | Borders::TopLimit | Borders::TopLeftLimit | Borders::TopRightLimit
            | Borders::LeftLimit | Borders::RightLimit => true,
        _ => false,
    }
}

/// Reset the session's offsets: the pan center returns to the image
/// midpoint, the cache-local position and the corrections return to
/// zero, and the border returns to the center.
pub fn reset_offsets(data: &mut ZoomableImageViewer)
    requires
        old(data).wf(),
    ensures
        final(data).wf(),
        final(data).offsetx == old(data).max_extents.w / 2,
        final(data).offsety == old(data).max_extents.h / 2,
        final(data).tracker.current_x == old(data).max_extents.w / 2,
        final(data).tracker.current_y == old(data).max_extents.h / 2,
        final(data).view.cache_posx == 0,
        final(data).view.cache_posy == 0,
        final(data).current_border.cache == Borders::Center,
        final(data).current_border.edge == Borders::Center,
        final(data).tracker.center_correction_x == 0,
        final(data).tracker.center_correction_y == 0,
        old(data).tracker.same_frame(final(data).tracker),
        final(data).level == old(data).level,
        final(data).max_level == old(data).max_level,
        final(data).levels@ == old(data).levels@,
        final(data).max_extents == old(data).max_extents,
        final(data).view.cache_size == old(data).view.cache_size,
        final(data).view.viewport_size == old(data).view.viewport_size,
        final(data).view.viewport_default == old(data).view.viewport_default,
        final(data).view.global_width == old(data).view.global_width,
        final(data).view.global_height == old(data).view.global_height,
        final(data).buffers.cache@ == old(data).buffers.cache@,
        final(data).buffers.loadtime_cache@ == old(data).buffers.loadtime_cache@,
        final(data).buffers.update_ready == old(data).buffers.update_ready,
        final(data).show_pred == old(data).show_pred,
{
    data.offsetx = data.max_extents.w / 2;
    data.offsety = data.max_extents.h / 2;
    data.tracker.current_x = data.offsetx;
    data.tracker.current_y = data.offsety;
    data.view.cache_posx = 0;
    data.view.cache_posy = 0;
    data.current_border = Border { cache: Borders::Center, edge: Borders::Center };
    data.tracker.center_correction_x = 0;
    data.tracker.center_correction_y = 0;
}

/// Swap the staging buffer into the live cache after a refill has
/// published its result.  The live buffer is replaced whole, never
/// merged.
#[verifier::rlimit(100)]
pub fn change_cache(data: &mut ZoomableImageViewer) -> (r: Option<String>)
    ensures
        r is None,
        final(data).buffers.cache@ == old(data).buffers.loadtime_cache@,
        final(data).buffers.loadtime_cache@ == old(data).buffers.loadtime_cache@,
        final(data).buffers.update_ready == old(data).buffers.update_ready,
        final(data).tracker == old(data).tracker,
        final(data).view == old(data).view,
        final(data).offsetx == old(data).offsetx,
        final(data).offsety == old(data).offsety,
        final(data).level == old(data).level,
        final(data).max_level == old(data).max_level,
        final(data).levels@ == old(data).levels@,
        final(data).max_extents == old(data).max_extents,
        final(data).current_border.cache == old(data).current_border.cache,
        final(data).current_border.edge == old(data).current_border.edge,
        final(data).show_pred == old(data).show_pred,
        old(data).wf() ==> final(data).wf(),
{
    let copied = clone_bytes(&data.buffers.loadtime_cache);
    data.buffers.cache = copied;
    None
}

/// Byte-for-byte copy of a buffer.
fn clone_bytes(src: &Vec<u8>) -> (r: Vec<u8>)
    ensures
        r@ == src@,
{
    let mut out: Vec<u8> = Vec::new();
    let mut i: usize = 0;
    while i < src.len()
        invariant
            0 <= i <= src@.len(),
            out@ == src@.subrange(0, i as int),
        decreases src@.len() - i,
    {
        out.push(src[i]);
        i = i + 1;
    }
    proof {
        assert(out@ =~= src@);
    }
    out
}

/// One blended byte: the fixed 35/100 primary and 65/100 overlay
/// weights.
pub open spec fn blend_byte(p: u8, o: u8) -> u8 {
    ((35 * (p as int) + 65 * (o as int)) / 100) as u8
}

/// Blend the primary plane and the overlay plane per byte with the
/// fixed weights.  As the planes are combined pairwise, the result is
/// as long as the shorter of the two.
pub fn blend_rgba(img: &Vec<u8>, pred: &Vec<u8>) -> (r: Vec<u8>)
    ensures
        r@.len() == min_i(img@.len() as int, pred@.len() as int),
        forall|i: int| 0 <= i < r@.len() ==> r@[i] == blend_byte(img@[i], pred@[i]),
{
    let n: usize = if img.len() <= pred.len() {
        img.len()
    } else {
        pred.len()
    };
    let mut out: Vec<u8> = Vec::new();
    let mut i: usize = 0;
    while i < n
        invariant
            0 <= i <= n,
            n == min_i(img@.len() as int, pred@.len() as int),
            out@.len() == i,
            forall|j: int| 0 <= j < i ==> out@[j] == blend_byte(img@[j], pred@[j]),
        decreases n - i,
    {
        let p: u32 = img[i] as u32;
        let o: u32 = pred[i] as u32;
        let b: u32 = (35 * p + 65 * o) / 100;
        out.push(b as u8);
        i = i + 1;
    }
    out
}

/// The plane a refill publishes: the primary region, blended with the
/// overlay when the overlay is shown.
pub open spec fn published_plane(img: Seq<u8>, pred: Seq<u8>, load_pred: bool) -> Seq<u8> {
    if load_pred {
        Seq::new(min_i(img.len() as int, pred.len() as int) as nat, |i: int|
            blend_byte(img[i], pred[i]))
    } else {
        img
    }
}

/// Publish the results of a cache refill.
///
/// `img_region` and `pred_region` are what the region fetches returned;
/// errors carry the fetcher's message.  When both fetches succeeded,
/// the published plane (primary, or the fixed-weight blend when the
/// overlay is shown) goes to the staging buffer and the ready flag is
/// raised for a background refill, or straight into the live cache for
/// a foreground one.  When only the overlay failed, the primary plane
/// is still published; the failure surfaces as a soft error.  When both
/// failed, nothing is published and the combined failure is reported.
#[verifier::rlimit(100)]
pub fn update_cache_data(
    data: &mut ZoomableImageViewer,
    background: bool,
    path: String,
    img_region: Result<Vec<u8>, String>,
    pred_region: Result<Vec<u8>, String>,
) -> (r: Option<crate::error::ErrorKind>)
    ensures
        final(data).tracker == old(data).tracker,
        final(data).view == old(data).view,
        final(data).offsetx == old(data).offsetx,
        final(data).offsety == old(data).offsety,
        final(data).level == old(data).level,
        final(data).max_level == old(data).max_level,
        final(data).levels@ == old(data).levels@,
        final(data).max_extents == old(data).max_extents,
        final(data).show_pred == old(data).show_pred,
        old(data).wf() ==> final(data).wf(),
        (match (img_region, pred_region) {
            (Ok(img), Ok(pred)) => {
                let plane = published_plane(img@, pred@, old(data).show_pred);
                &&& r is None
                &&& (background ==> final(data).buffers.loadtime_cache@ == plane
                    && final(data).buffers.update_ready && final(data).buffers.cache@ == old(data).buffers.cache@)
                &&& (!background ==> final(data).buffers.cache@ == plane
                    && final(data).buffers.loadtime_cache@ == old(data).buffers.loadtime_cache@)
            },
            (Ok(img), Err(e)) => {
                &&& (background ==> final(data).buffers.loadtime_cache@ == img@
                    && final(data).buffers.update_ready && r is None && final(data).error == Some(
                    crate::error::ErrorKind::ThreadError(e),
                ))
                &&& (!background ==> final(data).buffers.cache@ == img@ && (old(data).show_pred
                    ==> r == Some(crate::error::ErrorKind::MaskLoadingError(path, e))) && (!old(data).show_pred ==> r is None))
            },
            (Err(e), Err(e2)) => {
                &&& final(data).buffers.cache@ == old(data).buffers.cache@
                &&& final(data).buffers.loadtime_cache@ == old(data).buffers.loadtime_cache@
                &&& (background ==> r is None && final(data).error == Some(
                    crate::error::ErrorKind::ThreadMultiError(e, e2),
                ))
                &&& (!background ==> r == Some(
                    crate::error::ErrorKind::BothLoadingError(path, e, e2),
                ))
            },
            (Err(_), Ok(_)) => r is None && final(data).buffers.cache@ == old(data).buffers.cache@
                && final(data).buffers.loadtime_cache@ == old(data).buffers.loadtime_cache@,
        }),
{
    let load_pred = data.show_pred;
    match (img_region, pred_region) {
        (Ok(img), Ok(pred)) => {
            let region: Vec<u8> = if load_pred {
                let blended = blend_rgba(&img, &pred);
                proof {
                    assert(blended@ =~= published_plane(img@, pred@, load_pred));
                }
                blended
            } else {
                img
            };
            if background {
                data.buffers.loadtime_cache = region;
                data.buffers.update_ready = true;
            } else {
                data.buffers.cache = region;
            }
            None
        },
        (Ok(img), Err(err)) => {
            if background {
                data.buffers.loadtime_cache = img;
                data.buffers.update_ready = true;
                data.error = Some(crate::error::ErrorKind::ThreadError(err));
                None
            } else {
                data.buffers.cache = img;
                if load_pred {
                    Some(crate::error::ErrorKind::MaskLoadingError(path, err))
                } else {
                    None
                }
            }
        },
        (Err(err), Err(err2)) => {
            if background {
                data.error = Some(crate::error::ErrorKind::ThreadMultiError(err, err2));
                None
            } else {
                Some(crate::error::ErrorKind::BothLoadingError(path, err, err2))
            }
        },
        (Err(_), Ok(_)) => None,
    }
}

} // verus!
