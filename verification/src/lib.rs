//! Resolution of named parameters from a remote key-value store and
//! substitution of their values into text templates.
//!
//! The library holds the logic of the tool: the pagination of path-based
//! listings, the partitioning of batch results into valid and invalid
//! names, the classification of store failures into a closed error
//! taxonomy, the template placeholder pipeline, and the plan of the clone
//! operation. The network calls themselves live outside the library; the
//! functions here take the store's responses as values and are verified
//! for every value the store could hand back.

pub mod clone_op;
pub mod errors;
pub mod paging;
pub mod resolve;
pub mod ssm_parameters;
pub mod template;

use vstd::prelude::*;

verus! {

/// The largest number of names one batch request may carry: the store's
/// own limit on batch gets.
pub const BATCH_LIMIT: usize = 10;

} // verus!
