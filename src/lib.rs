//! Batch conversion of DICOM trees into PNG thumbnails: collision-free
//! output naming, source discovery, the per-item conversion pipeline and
//! the aggregation of per-item outcomes.

pub mod naming;
pub mod discovery;
pub mod summary;
pub mod convert;
