//! The single-slot error cell shared with worker refills.
//!
//! A worker stores its failure into the cell; the interaction loop
//! reads the cell to surface the failure and clears it once shown.  A
//! new error always replaces the previous one, never queues behind it.

use vstd::prelude::*;

verus! {

use crate::error::ErrorKind;

/// An exact copy of an error value.
pub fn clone_error(e: &ErrorKind) -> (r: ErrorKind)
    ensures
        r == *e,
{
    match e {
        ErrorKind::OpenSlideMetaLoadingError(a) => ErrorKind::OpenSlideMetaLoadingError(a.clone()),
        ErrorKind::OpenSlideImageLoadingError(a) => ErrorKind::OpenSlideImageLoadingError(
            a.clone(),
        ),
        ErrorKind::DicomImageLoadingError(a) => ErrorKind::DicomImageLoadingError(a.clone()),
        ErrorKind::OpenSlidePropertiesError(a) => ErrorKind::OpenSlidePropertiesError(a.clone()),
        ErrorKind::MaskLoadingError(a, b) => ErrorKind::MaskLoadingError(a.clone(), b.clone()),
        ErrorKind::BothLoadingError(a, b, c) => ErrorKind::BothLoadingError(
            a.clone(),
            b.clone(),
            c.clone(),
        ),
        ErrorKind::ChacheChangingError(a) => ErrorKind::ChacheChangingError(a.clone()),
        ErrorKind::VipsOpError(a, b) => ErrorKind::VipsOpError(a.clone(), b.clone()),
        ErrorKind::GlobError(a, b) => ErrorKind::GlobError(a.clone(), b.clone()),
        ErrorKind::ArrayError(a, b) => ErrorKind::ArrayError(a.clone(), b.clone()),
        ErrorKind::ScriptError(a, b, c) => ErrorKind::ScriptError(a.clone(), b.clone(), c.clone()),
        ErrorKind::FetchError(a, x, y, b) => ErrorKind::FetchError(a.clone(), *x, *y, b.clone()),
        ErrorKind::TensorPropError(a) => ErrorKind::TensorPropError(a.clone()),
        ErrorKind::PredIterError(a) => ErrorKind::PredIterError(a.clone()),
        ErrorKind::PredWriteError(a) => ErrorKind::PredWriteError(a.clone()),
        ErrorKind::BackboneLoadError(a) => ErrorKind::BackboneLoadError(a.clone()),
        ErrorKind::ExtractorLoadError(a) => ErrorKind::ExtractorLoadError(a.clone()),
        ErrorKind::ThreadError(a) => ErrorKind::ThreadError(a.clone()),
        ErrorKind::ThreadMultiError(a, b) => ErrorKind::ThreadMultiError(a.clone(), b.clone()),
        ErrorKind::LayoutError(a) => ErrorKind::LayoutError(a.clone()),
        ErrorKind::ConfigError() => ErrorKind::ConfigError(),
        ErrorKind::NoFileError() => ErrorKind::NoFileError(),
    }
}

/// Store an error into the shared cell, or read the cell.
///
/// With an error given, the cell takes it (replacing anything there)
/// and nothing is returned; with none given, a copy of the cell's
/// current content is returned and the cell keeps it.
pub fn log_or_load_thread_err(cell: &mut Option<ErrorKind>, err: Option<ErrorKind>) -> (r: Option<
    ErrorKind,
>)
    ensures
        err is Some ==> *final(cell) == err && r is None,
        err is None ==> *final(cell) == *old(cell) && r == *old(cell),
{
    match err {
        Some(e) => {
            *cell = Some(e);
            None
        },
        None => {
            match cell {
                Some(e) => Some(clone_error(e)),
                None => None,
            }
        },
    }
}

/// Clear the shared error cell.
pub fn reset_thread_err(cell: &mut Option<ErrorKind>)
    ensures
        *final(cell) is None,
{
    *cell = None;
}

} // verus!
