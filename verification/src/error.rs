//! Error taxonomy of the viewer core.
//!
//! Only operations that touch an image source can fail; coordinate and
//! geometry arithmetic is total over clamped domains and never produces
//! an error.  A session keeps at most one current error: a new error
//! always replaces the previous one.

use vstd::prelude::*;

verus! {

/// Every failure the viewer core can report.  Paths and collaborator
/// messages are carried as plain strings.
#[derive(Debug, Clone)]
pub enum ErrorKind {
    /// Metadata of a slide could not be read; carries the path.
    OpenSlideMetaLoadingError(String),
    /// Pixel data of a slide could not be read; carries the path.
    OpenSlideImageLoadingError(String),
    /// Pixel data of a volume image could not be read; carries the path.
    DicomImageLoadingError(String),
    /// Properties of a slide could not be read; carries the path.
    OpenSlidePropertiesError(String),
    /// The overlay mask could not be read; path and message.
    MaskLoadingError(String, String),
    /// Both the primary region and the overlay mask failed; path and the
    /// two messages.
    BothLoadingError(String, String, String),
    /// One of the cache buffers could not be updated; names the buffer.
    ChacheChangingError(String),
    /// A pixel-buffer operation failed; path and message.
    VipsOpError(String, String),
    /// Listing files under a directory failed; path and message.
    GlobError(String, String),
    /// An array operation failed; path and message.
    ArrayError(String, String),
    /// Running an embedded script failed; path, script, message.
    ScriptError(String, String, String),
    /// A region fetch failed; path, the requested position, message.
    FetchError(String, u32, u32, String),
    /// Tensor properties could not be read; carries the message.
    TensorPropError(String),
    /// Prediction or input data could not be iterated; message.
    PredIterError(String),
    /// A prediction could not be saved; message.
    PredWriteError(String),
    /// The backbone model is inaccessible; message.
    BackboneLoadError(String),
    /// The extractor model is inaccessible; message.
    ExtractorLoadError(String),
    /// A worker thread failed; message.
    ThreadError(String),
    /// Two worker failures at once; both messages.
    ThreadMultiError(String, String),
    /// Rendering crashed during layout; message.
    LayoutError(String),
    /// The configuration file could not be read.
    ConfigError(),
    /// No readable file is available.
    NoFileError(),
}

} // verus!
