//! A small text-analysis library: given a block of source text, it classifies
//! every line as code, empty, or comment, and reports five metrics on demand:
//! the total line count, the code-line count, the empty-line count, the
//! comment-line count, and the number of characters belonging to code lines.
//!
//! The mathematical model lives in [`model`]; the executable classifier, whose
//! contracts are stated over that model, lives in [`classifier`].

pub mod classifier;
pub mod model;

pub use classifier::SourceUtility;
