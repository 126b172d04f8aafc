//! Session-level operations: panning, level changes, and adopting a
//! newly loaded image's properties.
//!
//! These are the decisions the interaction loop asks for.  Reading
//! pixels or metadata from disk happens outside; the session receives
//! plain values and hands decisions back.

use vstd::prelude::*;

verus! {

use crate::STEP;
use crate::Size;
use crate::ZoomableImageViewer;
use crate::cache;
use crate::cache::Border;
use crate::error::ErrorKind;
use crate::tracking;
use crate::tracking::Borders;
use crate::tracking::Tracker;
use crate::tracking::border_from_limits;

/// The soft limits a pan with delta `(dx, dy)` reports on session `v`.
pub open spec fn pan_limits(v: ZoomableImageViewer, dx: int, dy: int) -> tracking::Limits {
    v.tracker.soft_limits_of(
        Tracker::panned(v.view.cache_posx as int, dx),
        Tracker::panned(v.view.cache_posy as int, dy),
        v.offsetx as int,
        v.offsety as int,
    )
}

/// The border a pan with delta `(dx, dy)` classifies on session `v`.
pub open spec fn pan_border(v: ZoomableImageViewer, dx: int, dy: int) -> Borders {
    border_from_limits(pan_limits(v, dx, dy))
}

/// Whether a pan starts a background refill: a new, non-limit border
/// was reached while preloading is possible.
pub open spec fn pan_starts_refill(v: ZoomableImageViewer, dx: int, dy: int) -> bool {
    &&& v.level < v.max_level
    &&& pan_border(v, dx, dy) != Borders::Center
    &&& v.current_border.cache != pan_border(v, dx, dy)
    &&& v.tracker.preload_possible
    &&& !cache::is_limit_border(pan_border(v, dx, dy))
}

/// Whether a pan publishes the staging buffer into the live cache: a
/// hard cache edge was crossed away from the image limit while
/// preloading is possible.
pub open spec fn pan_publishes(v: ZoomableImageViewer, dx: int, dy: int) -> bool {
    let after_cache = if pan_starts_refill(v, dx, dy) {
        pan_border(v, dx, dy)
    } else {
        v.current_border.cache
    };
    let preload_after = if pan_starts_refill(v, dx, dy) {
        cache::preload_of(v)
    } else {
        v.tracker.preload_possible
    };
    &&& v.level < v.max_level
    &&& pan_limits(v, dx, dy).border_reached
    &&& !cache::is_limit_border(after_cache)
    &&& preload_after
}

/// Apply a pan delta to the session: update all coordinate spaces
/// through the tracker, classify the border, and decide about refills.
///
/// Returns the classified border and whether the caller must fetch a
/// fresh region in the background.  When a new border is first reached
/// the geometry is replanned and the border is remembered; when a hard
/// cache edge is crossed the staging buffer is swapped into the live
/// cache and the border returns to the center.  A pan at the coarsest
/// level, or one that fires no trigger from a stable centered state,
/// leaves the global offset unchanged.
#[verifier::rlimit(100)]
pub fn pan(data: &mut ZoomableImageViewer, delta_x: i64, delta_y: i64) -> (r: (Borders, bool))
    requires
        old(data).wf(),
        -tracking::DELTA_LIMIT <= delta_x <= tracking::DELTA_LIMIT,
        -tracking::DELTA_LIMIT <= delta_y <= tracking::DELTA_LIMIT,
    ensures
        final(data).wf(),
        old(data).level >= old(data).max_level ==> r == (Borders::Center, false) && *final(data)
            == *old(data),
        old(data).level < old(data).max_level ==> {
            &&& r.0 == pan_border(*old(data), delta_x as int, delta_y as int)
            &&& r.1 == pan_starts_refill(*old(data), delta_x as int, delta_y as int)
            &&& (pan_publishes(*old(data), delta_x as int, delta_y as int) ==> final(data).buffers.cache@ == old(data).buffers.loadtime_cache@ && final(data).current_border.cache == Borders::Center && final(data).current_border.edge == r.0)
            &&& (!pan_publishes(*old(data), delta_x as int, delta_y as int) ==> final(data).buffers.cache@ == old(data).buffers.cache@)
            &&& (r.1 && !pan_publishes(*old(data), delta_x as int, delta_y as int) ==> final(data).current_border.cache == r.0 && final(data).current_border.edge == r.0)
            &&& (!r.1 && !pan_publishes(*old(data), delta_x as int, delta_y as int) ==> final(data).current_border.cache == old(data).current_border.cache && final(data).current_border.edge == old(data).current_border.edge)
            &&& 0 <= final(data).offsetx <= old(data).max_extents.w
            &&& 0 <= final(data).offsety <= old(data).max_extents.h
            &&& (r.1 ==> final(data).tracker.preload_possible == cache::preload_of(*old(data)))
            &&& (!r.1 ==> final(data).view.cache_size == old(data).view.cache_size && final(data).view.viewport_size == old(data).view.viewport_size && final(data).tracker.preload_possible == old(data).tracker.preload_possible)
            &&& {
                let s = old(data).tracker;
                let l = pan_limits(*old(data), delta_x as int, delta_y as int);
                !l.border_reached && !l.cache_reached && s.center_correction_x == 0
                    && s.center_correction_y == 0 && s.current_x == old(data).offsetx
                    && s.current_y == old(data).offsety && 0 <= old(data).offsetx <= old(data).max_extents.w && 0 <= old(data).offsety <= old(data).max_extents.h && tracking::abs_i(
                    Tracker::panned(old(data).view.cache_posx as int, delta_x as int),
                ) <= s.half_span_x() && tracking::abs_i(
                    Tracker::panned(old(data).view.cache_posy as int, delta_y as int),
                ) <= s.half_span_y() ==> final(data).offsetx == old(data).offsetx && final(data).offsety == old(data).offsety && final(data).view.cache_posx == Tracker::panned(
                    old(data).view.cache_posx as int,
                    delta_x as int,
                ) && final(data).view.cache_posy == Tracker::panned(
                    old(data).view.cache_posy as int,
                    delta_y as int,
                )
            }
        },
{
    if data.level >= data.max_level {
        return (Borders::Center, false);
    }
    let ghost v0 = *old(data);
    let mut gx: i64 = data.offsetx;
    let mut gy: i64 = data.offsety;
    let mut cx: i64 = data.view.cache_posx;
    let mut cy: i64 = data.view.cache_posy;
    let limits = data.tracker.update_coords(&mut gx, &mut gy, &mut cx, &mut cy, delta_x, delta_y);
    data.offsetx = gx;
    data.offsety = gy;
    data.view.cache_posx = cx;
    data.view.cache_posy = cy;
    let border = data.tracker.get_current_border(&limits);
    proof {
        assert(limits == pan_limits(v0, delta_x as int, delta_y as int));
        assert(border == pan_border(v0, delta_x as int, delta_y as int));
        assert(data.wf());
    }
    let is_edge = border_is_limit(&border);
    proof {
        assert(is_edge == cache::is_limit_border(pan_border(v0, delta_x as int, delta_y as int)));
    }
    let mut refill = false;
    if !matches_center(&border) && !borders_equal(&data.current_border.cache, &border)
        && data.tracker.preload_possible && !is_edge {
        data.current_border.cache = border;
        data.current_border.edge = border;
        refill = true;
        let ghost v_mid = *data;
        cache::update_zoom_props(data);
        proof {
            assert(cache::preload_of(v_mid) == cache::preload_of(v0));
        }
    }
    proof {
        assert(refill == pan_starts_refill(v0, delta_x as int, delta_y as int));
    }
    let is_edge2 = border_is_limit(&data.current_border.cache);
    let publishing = limits.border_reached && !is_edge2 && data.tracker.preload_possible;
    proof {
        assert(publishing == pan_publishes(v0, delta_x as int, delta_y as int));
    }
    if publishing {
        data.current_border.edge = border;
        data.current_border.cache = Borders::Center;
        let _ = cache::change_cache(data);
    }
    (border, refill)
}

/// The next requested level a zoom key press asks for: small levels
/// step by one, larger ones by the fixed zoom step; the result stays
/// inside `[1, max_level]`.
pub fn step_level(level: i64, max_level: i64, zoom_in: bool) -> (nl: i64)
    requires
        1 <= level <= max_level <= tracking::LEVEL_LIMIT,
    ensures
        1 <= nl <= max_level,
        zoom_in ==> nl == tracking::max_i(
            if level > 4 {
                level - STEP
            } else {
                level - 1
            },
            1,
        ),
        !zoom_in ==> nl == tracking::min_i(
            if level < max_level {
                if level < 4 {
                    level + 1
                } else {
                    level + STEP
                }
            } else {
                level as int
            },
            max_level as int,
        ),
{
    if zoom_in {
        let stepped: i64 = if level > 4 {
            level - STEP
        } else {
            level - 1
        };
        if stepped < 1 {
            1
        } else {
            stepped
        }
    } else {
        let stepped: i64 = if level < max_level {
            if level < 4 {
                level + 1
            } else {
                level + STEP
            }
        } else {
            level
        };
        if stepped > max_level {
            max_level
        } else {
            stepped
        }
    }
}

/// Change the active level: replan the geometry and reconcile the
/// offsets.  Moving to the coarsest level resets the offsets to the
/// image midpoint first.  Returns whether the caller must fetch a
/// fresh region in the foreground: always at the coarsest level, and
/// otherwise whenever either the old or the new selected level is not
/// the coarsest one.
pub fn change_level(data: &mut ZoomableImageViewer, new_level: i64) -> (refill: bool)
    requires
        old(data).wf(),
        1 <= new_level <= old(data).max_level,
    ensures
        final(data).wf(),
        final(data).level == new_level,
        final(data).max_level == old(data).max_level,
        final(data).levels@ == old(data).levels@,
        final(data).max_extents == old(data).max_extents,
        new_level == old(data).max_level ==> refill && final(data).offsetx == old(data).max_extents.w / 2 && final(data).offsety == old(data).max_extents.h / 2 && final(data).view.cache_posx == 0 && final(data).view.cache_posy == 0,
        new_level != old(data).max_level ==> refill == (
        cache::sel_level_for(old(data).levels@, new_level as int) != old(data).max_level
            || cache::sel_level_for(old(data).levels@, old(data).level as int) != old(data).max_level),
        new_level != old(data).max_level && cache::sel_level_for(
            old(data).levels@,
            old(data).level as int,
        ) == old(data).max_level && old(data).view.cache_posx == 0 && old(data).view.cache_posy
            == 0 ==> final(data).offsetx == old(data).max_extents.w / 2 && final(data).offsety
            == old(data).max_extents.h / 2 && final(data).view.cache_posx == 0 && final(data).view.cache_posy == 0,
{
    let old_level: i64 = data.level;
    data.level = new_level;
    if new_level == data.max_level {
        cache::reset_offsets(data);
        cache::update_zoom_props(data);
        true
    } else {
        cache::update_zoom_props(data);
        cache::update_offsets(data, old_level);
        let selection = cache::find_next_greater_value(&data.levels, data.level);
        let sel_idx: usize;
        let sel: i64;
        match selection {
            Some(p) => {
                sel_idx = p.0;
                sel = p.1;
            },
            None => {
                sel_idx = 0;
                sel = data.level;
            },
        }
        let old_selection = cache::find_next_greater_value(&data.levels, old_level);
        let old_idx: usize;
        let old_sel: i64;
        match old_selection {
            Some(p) => {
                old_idx = p.0;
                old_sel = p.1;
            },
            None => {
                old_idx = 0;
                old_sel = old_level;
            },
        }
        proof {
            if cache::has_ge(old(data).levels@, new_level as int) {
                cache::lemma_first_ge_unique(
                    old(data).levels@,
                    new_level as int,
                    cache::sel_index_for(old(data).levels@, new_level as int),
                    sel_idx as int,
                );
            }
            if cache::has_ge(old(data).levels@, old_level as int) {
                cache::lemma_first_ge_unique(
                    old(data).levels@,
                    old_level as int,
                    cache::sel_index_for(old(data).levels@, old_level as int),
                    old_idx as int,
                );
            }
            assert(sel == cache::sel_level_for(old(data).levels@, new_level as int));
            assert(old_sel == cache::sel_level_for(old(data).levels@, old_level as int));
        }
        sel != data.max_level || old_sel != data.max_level
    }
}

/// Adopt the properties of a newly loaded slide: its full-resolution
/// extents and its downsample levels, with the active level chosen or
/// defaulted to the coarsest.  The offsets recenter on the image
/// midpoint and the geometry is replanned.  Properties that cannot
/// describe a loadable image — no levels, a level out of range, or
/// extents beyond what exact pixel arithmetic covers — are rejected
/// with a properties error carrying the path, and the session is left
/// unchanged.
pub fn apply_slide_properties(
    data: &mut ZoomableImageViewer,
    path: String,
    dims: Size,
    levels: Vec<i64>,
    level: Option<i64>,
) -> (r: Result<u8, ErrorKind>)
    requires
        old(data).wf(),
    ensures
        final(data).wf(),
        r is Ok <==> slide_properties_ok(dims, levels@, level),
        r is Ok ==> {
            &&& final(data).levels@ == levels@
            &&& final(data).max_level == levels@[levels@.len() - 1]
            &&& final(data).level == (match level {
                Some(l) => l,
                None => levels@[levels@.len() - 1],
            })
            &&& final(data).max_extents == dims
            &&& final(data).offsetx == dims.w / 2
            &&& final(data).offsety == dims.h / 2
            &&& final(data).show_pred == false
        },
        r matches Err(e) ==> e matches ErrorKind::OpenSlidePropertiesError(p) && p@ == path@
            && *final(data) == *old(data),
{
    if !check_slide_properties(&dims, &levels, &level) {
        return Err(ErrorKind::OpenSlidePropertiesError(path));
    }
    let max_level: i64 = levels[levels.len() - 1];
    data.levels = levels;
    data.max_level = max_level;
    data.level = match level {
        Some(l) => l,
        None => max_level,
    };
    data.max_extents = dims;
    data.tracker.max_global_x = dims.w;
    data.tracker.max_global_y = dims.h;
    data.offsetx = dims.w / 2;
    data.offsety = dims.h / 2;
    data.tracker.current_x = data.offsetx;
    data.tracker.current_y = data.offsety;
    data.show_pred = false;
    cache::update_zoom_props(data);
    Ok(0)
}

/// Whether slide properties describe a loadable image: at least one
/// level, every level in range, a chosen level within the pyramid, and
/// extents that exact pixel arithmetic covers.
pub open spec fn slide_properties_ok(dims: Size, levels: Seq<i64>, level: Option<i64>) -> bool {
    &&& levels.len() > 0
    &&& forall|i: int| 0 <= i < levels.len() ==> 1 <= #[trigger] levels[i] <= tracking::LEVEL_LIMIT
    &&& (match level {
        Some(l) => 1 <= l <= levels[levels.len() - 1],
        None => true,
    })
    &&& 1 <= levels[levels.len() - 1]
    &&& 0 <= dims.w <= tracking::GLOBAL_LIMIT
    &&& 0 <= dims.h <= tracking::GLOBAL_LIMIT
    &&& dims.w <= tracking::CACHE_DIM_LIMIT * levels[levels.len() - 1]
    &&& dims.h <= tracking::CACHE_DIM_LIMIT * levels[levels.len() - 1]
}

/// Runtime check of the slide-property conditions.
fn check_slide_properties(dims: &Size, levels: &Vec<i64>, level: &Option<i64>) -> (r: bool)
    ensures
        r == slide_properties_ok(*dims, levels@, *level),
{
    if levels.len() == 0 {
        return false;
    }
    let last: i64 = levels[levels.len() - 1];
    let mut i: usize = 0;
    let mut all_in_range = true;
    while i < levels.len()
        invariant
            0 <= i <= levels@.len(),
            all_in_range == forall|j: int|
                0 <= j < i ==> 1 <= #[trigger] levels@[j] <= tracking::LEVEL_LIMIT,
        decreases levels@.len() - i,
    {
        if levels[i] < 1 || levels[i] > tracking::LEVEL_LIMIT {
            all_in_range = false;
        }
        i = i + 1;
    }
    if !all_in_range {
        return false;
    }
    let level_ok = match level {
        Some(l) => 1 <= *l && *l <= last,
        None => true,
    };
    proof {
        tracking::lemma_mul_le(
            tracking::CACHE_DIM_LIMIT as int,
            last as int,
            tracking::CACHE_DIM_LIMIT as int,
            tracking::LEVEL_LIMIT as int,
        );
    }
    level_ok && 1 <= last && 0 <= dims.w && dims.w <= tracking::GLOBAL_LIMIT && 0 <= dims.h
        && dims.h <= tracking::GLOBAL_LIMIT && dims.w <= tracking::CACHE_DIM_LIMIT * last
        && dims.h <= tracking::CACHE_DIM_LIMIT * last
}

/// A `mpMRI` path component starts at position `i` of `s`: the five
/// characters stand there, delimited by the start or a separator on
/// the left and the end or a separator on the right.
pub open spec fn is_mpmri_at(s: Seq<char>, i: int) -> bool {
    &&& 0 <= i
    &&& i + 5 <= s.len()
    &&& s[i] == 'm'
    &&& s[i + 1] == 'p'
    &&& s[i + 2] == 'M'
    &&& s[i + 3] == 'R'
    &&& s[i + 4] == 'I'
    &&& (i == 0 || s[i - 1] == '/')
    &&& (i + 5 == s.len() || s[i + 5] == '/')
}

/// Find the folder that holds the `mpMRI` subtree: the path up to, but
/// not including, the separator before the first `mpMRI` component; or
/// nothing when the path has no such component.  Components are
/// separated by `/`.
pub fn find_parent_of_mpmri(path: &str) -> (r: Option<String>)
    ensures
        r is Some <==> exists|i: int| is_mpmri_at(path@, i),
        r matches Some(p) ==> exists|i: int|
            #[trigger] is_mpmri_at(path@, i) && (forall|j: int| 0 <= j < i ==> !is_mpmri_at(path@, j))
            && p@ == path@.subrange(0, if i == 0 {
                0
            } else {
                i - 1
            }),
{
    let n: usize = path.unicode_len();
    if n < 5 {
        return None;
    }
    let mut i: usize = 0;
    while i <= n - 5
        invariant
            0 <= i <= n - 5 + 1,
            n == path@.len(),
            n >= 5,
            forall|j: int| 0 <= j < i ==> !is_mpmri_at(path@, j),
        decreases n - i,
    {
        let boundary_left = i == 0 || path.get_char(i - 1) == '/';
        let boundary_right = i + 5 == n || path.get_char(i + 5) == '/';
        if boundary_left && boundary_right && path.get_char(i) == 'm' && path.get_char(i + 1)
            == 'p' && path.get_char(i + 2) == 'M' && path.get_char(i + 3) == 'R' && path.get_char(
            i + 4,
        ) == 'I' {
            proof {
                assert(is_mpmri_at(path@, i as int));
            }
            let cut: usize = if i == 0 {
                0
            } else {
                i - 1
            };
            let prefix = path.substring_char(0, cut);
            return Some(String::from_str(prefix));
        }
        proof {
            assert(!is_mpmri_at(path@, i as int));
        }
        i = i + 1;
    }
    proof {
        assert(forall|j: int| is_mpmri_at(path@, j) ==> 0 <= j && j + 5 <= n);
    }
    None
}

/// A byte buffer of the given length holding one repeated value.
fn filled_bytes(n: usize, v: u8) -> (r: Vec<u8>)
    ensures
        r@.len() == n,
        forall|i: int| 0 <= i < n ==> r@[i] == v,
{
    let mut out: Vec<u8> = Vec::new();
    let mut k: usize = 0;
    while k < n
        invariant
            0 <= k <= n,
            out@.len() == k,
            forall|i: int| 0 <= i < k ==> out@[i] == v,
        decreases n - k,
    {
        out.push(v);
        k = k + 1;
    }
    out
}

impl ZoomableImageViewer {
    /// A fresh session before any image is loaded: a one-level pyramid
    /// over a small blank image, a doubled cache over a centered
    /// viewport, buffers filled with opaque white, and the position at
    /// the image midpoint.
    pub fn new() -> (r: ZoomableImageViewer)
        ensures
            r.wf(),
            r.level == 1,
            r.max_level == 1,
            r.offsetx == 256,
            r.offsety == 256,
            r.view.cache_posx == 0,
            r.view.cache_posy == 0,
            r.view.cache_size == (Size { w: 1024, h: 1024 }),
            r.view.viewport_size == (Size { w: 512, h: 512 }),
            r.current_border.cache == Borders::Center,
            r.current_border.edge == Borders::Center,
            r.buffers.cache@.len() == 1024 * 1024 * 4,
            r.buffers.update_ready == false,
            r.error is None,
            r.tracker.preload_possible == false,
    {
        let buffer_len: usize = 1024 * 1024 * 4;
        let cache = filled_bytes(buffer_len, 255);
        let mask_cache = filled_bytes(buffer_len, 255);
        let loadtime_cache = filled_bytes(buffer_len, 255);
        ZoomableImageViewer {
            level: 1,
            max_level: 1,
            levels: make_unit_levels(),
            offsetx: 256,
            offsety: 256,
            max_extents: Size { w: 512, h: 512 },
            current_extents: Size { w: 512, h: 512 },
            view: crate::ViewData {
                cache_size: Size { w: 1024, h: 1024 },
                viewport_size: Size { w: 512, h: 512 },
                viewport_default: Size { w: 512, h: 512 },
                global_width: crate::WIDTH,
                global_height: crate::HEIGHT,
                cache_posx: 0,
                cache_posy: 0,
            },
            buffers: crate::CacheBuffers { cache, mask_cache, loadtime_cache, update_ready: false },
            tracker: Tracker {
                max_global_x: 512,
                max_global_y: 512,
                cache_size_x: 1024,
                cache_size_y: 1024,
                viewport_size_x: 512,
                viewport_size_y: 512,
                current_x: 256,
                current_y: 256,
                center_correction_x: 0,
                center_correction_y: 0,
                preload_possible: false,
                cache_comp_x: 1,
                cache_comp_y: 1,
            },
            current_border: Border { cache: Borders::Center, edge: Borders::Center },
            show_pred: false,
            imagetype: crate::ImageType::WSI,
            error: None,
        }
    }
}

/// The level list of a fresh session: the single full-resolution level.
fn make_unit_levels() -> (r: Vec<i64>)
    ensures
        r@.len() == 1,
        r@[0] == 1,
{
    let mut v: Vec<i64> = Vec::new();
    v.push(1);
    v
}

/// Whether a border value is one of the "Limit" variants.
fn border_is_limit(b: &Borders) -> (r: bool)
    ensures
        r == cache::is_limit_border(*b),
{
    match b {
        Borders::BottomLimit | Borders::BottomLeftLimit | Borders::BottomRightLimit
            | Borders::TopLimit | Borders::TopLeftLimit | Borders::TopRightLimit
            | Borders::LeftLimit | Borders::RightLimit => true,
        _ => false,
    }
}

/// Whether a border value is the center.
fn matches_center(b: &Borders) -> (r: bool)
    ensures
        r == (*b == Borders::Center),
{
    match b {
        Borders::Center => true,
        _ => false,
    }
}

/// Whether two border values are equal.
fn borders_equal(a: &Borders, b: &Borders) -> (r: bool)
    ensures
        r == (*a == *b),
{
    *a == *b
}

} // verus!
