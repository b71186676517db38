//! Column metadata.

use vstd::prelude::*;
use crate::value::DType;

verus! {

/// Metadata for one column: its name and logical type.
#[derive(Debug, Clone)]
pub struct ColumnMeta {
    pub name: String,
    pub dtype: DType,
}

} // verus!
