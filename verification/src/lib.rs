//! Core of a pan-and-zoom viewer for gigapixel pyramidal images.
//!
//! A deep-zoom image is stored as a pyramid of precomputed downsample
//! levels.  The viewer never materializes more than a bounded pixel
//! buffer (the cache), somewhat larger than the visible viewport.  This
//! crate holds the verified core: pyramid-level selection, cache and
//! viewport sizing, the three coordinate spaces (global full-resolution
//! pixels, current-level pixels, cache-local pixels), border
//! classification, and the planning of region reads and cache refills.
//!
//! Reading pixels from disk, rendering, and threading live outside this
//! crate; they hand plain values in and take plain values back.

use vstd::prelude::*;

pub mod cache;
pub mod error;
pub mod image_viewer;
pub mod predictor;
pub mod slide_predictor;
pub mod tracking;
pub mod util;

verus! {

/// Default window width in pixels.
pub const WIDTH: i64 = 800;

/// Default window height in pixels.
pub const HEIGHT: i64 = 600;

/// Largest cache dimension, in pixels, that the planner will ever choose.
pub const CACHE_MAX: i64 = 3000;

/// Pan deltas are amplified by this factor before they move the cache
/// position.
pub const MOVEMENT_AMP: i64 = 2;

/// Zoom step applied per key press once the downsample level is past the
/// finest few levels.
pub const STEP: i64 = 4;

/// Kind of image a viewer session is showing.
#[derive(Copy, Clone, Debug)]
pub enum ImageType {
    DICOM,
    WSI,
}

/// A width/height pair of pixel extents.
#[derive(Copy, Clone, Debug, PartialEq, Eq, Structural)]
pub struct Size {
    pub w: i64,
    pub h: i64,
}

impl Size {
    /// True when both extents are non-negative.
    pub open spec fn non_negative(self) -> bool {
        0 <= self.w && 0 <= self.h
    }
}

/// Geometry of the view: viewport and cache extents, the window size,
/// and the cache-local pan position.
pub struct ViewData {
    /// Cache buffer extents in pixels.
    pub cache_size: Size,
    /// Viewport extents in pixels, never larger than the cache.
    pub viewport_size: Size,
    /// Viewport extents before any cache-driven scale-up; set at the
    /// coarsest level.
    pub viewport_default: Size,
    /// Window width in pixels.
    pub global_width: i64,
    /// Window height in pixels.
    pub global_height: i64,
    /// Cache-local pan position, measured from the cache center.
    pub cache_posx: i64,
    pub cache_posy: i64,
}

/// The pixel buffers of a session: the live cache consumed by the
/// renderer, an overlay mask, a staging buffer filled by background
/// refills, and the flag that marks the staging buffer ready to swap.
pub struct CacheBuffers {
    /// Live cache; always fully populated, never partially overwritten.
    pub cache: Vec<u8>,
    /// Overlay mask plane.
    pub mask_cache: Vec<u8>,
    /// Staging buffer written by a background refill.
    pub loadtime_cache: Vec<u8>,
    /// True once the staging buffer holds a complete refill result.
    pub update_ready: bool,
}

/// One viewer session: the loaded image's pyramid, the current level,
/// global and cache-local positions, geometry, buffers, and the border
/// state.  Created when an image is loaded, mutated only by the
/// geometry planner and the position tracker.
pub struct ZoomableImageViewer {
    /// Requested downsample level (zoom factor).
    pub level: i64,
    /// Coarsest downsample level of the loaded image.
    pub max_level: i64,
    /// Available downsample levels, ascending.
    pub levels: Vec<i64>,
    /// Pan center in full-resolution pixel coordinates.
    pub offsetx: i64,
    pub offsety: i64,
    /// Full-resolution image extents.
    pub max_extents: Size,
    /// Image extents at the selected level.
    pub current_extents: Size,
    /// View geometry and cache-local position.
    pub view: ViewData,
    /// Live, mask and staging pixel buffers.
    pub buffers: CacheBuffers,
    /// Position tracker.
    pub tracker: tracking::Tracker,
    /// Current border classification.
    pub current_border: cache::Border,
    /// Whether the prediction overlay is blended into refills.
    pub show_pred: bool,
    /// Kind of image loaded.
    pub imagetype: ImageType,
    /// The single-slot current error; a new error always replaces it.
    pub error: Option<error::ErrorKind>,
}

impl ZoomableImageViewer {
    /// Well-formedness of a session: a well-formed tracker, a loaded
    /// pyramid with levels in range, extents small enough for exact
    /// pixel arithmetic, a thumbnail that fits the cache bound, a
    /// positive window, and positions inside their legal ranges.
    pub open spec fn wf(self) -> bool {
        &&& self.tracker.wf()
        &&& 1 <= self.level <= self.max_level <= tracking::LEVEL_LIMIT
        &&& forall|i: int|
            0 <= i < self.levels@.len() ==> 1 <= #[trigger] self.levels@[i]
                <= tracking::LEVEL_LIMIT
        &&& 0 <= self.max_extents.w <= tracking::GLOBAL_LIMIT
        &&& 0 <= self.max_extents.h <= tracking::GLOBAL_LIMIT
        &&& self.max_extents.w <= tracking::CACHE_DIM_LIMIT * self.max_level
        &&& self.max_extents.h <= tracking::CACHE_DIM_LIMIT * self.max_level
        &&& 1 <= self.view.global_width <= tracking::LEVEL_LIMIT
        &&& 1 <= self.view.global_height <= tracking::LEVEL_LIMIT
        &&& 1 <= self.view.viewport_default.w <= tracking::CACHE_DIM_LIMIT
        &&& 1 <= self.view.viewport_default.h <= tracking::CACHE_DIM_LIMIT
        &&& 1 <= self.view.viewport_size.w <= self.view.cache_size.w
            <= tracking::CACHE_DIM_LIMIT
        &&& 1 <= self.view.viewport_size.h <= self.view.cache_size.h
            <= tracking::CACHE_DIM_LIMIT
        &&& tracking::abs_i(self.view.cache_posx as int) <= tracking::CACHE_DIM_LIMIT
        &&& tracking::abs_i(self.view.cache_posy as int) <= tracking::CACHE_DIM_LIMIT
        &&& self.tracker.max_global_x == self.max_extents.w
        &&& self.tracker.max_global_y == self.max_extents.h
        &&& 0 <= self.offsetx <= self.max_extents.w
        &&& 0 <= self.offsety <= self.max_extents.h
    }
}

} // verus!
