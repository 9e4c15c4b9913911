//! Release notes assembled from the tickets of two issue trackers: raw
//! tracker records are normalized into one ticket model, references between
//! tickets are resolved into signatures, and a template of filtered chapters
//! renders the whole document.

pub mod json;
pub mod extra_fields;
pub mod ticket;
pub mod note;
pub mod templating;
pub mod abstraction;
pub mod references;
