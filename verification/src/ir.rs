//! The values that queries carry.

use std::sync::Arc;

use vstd::prelude::*;

verus! {

/// The value of a property, or of an edge's parameter.
#[derive(Debug, Clone, PartialEq, Eq)]
pub enum FieldValue {
    Null,
    Int64(i64),
    Uint64(u64),
    /// A double-precision number, by its bits.
    Float64(u64),
    String(String),
    Boolean(bool),
    Enum(String),
    List(Arc<Vec<FieldValue>>),
}

/// The parameters of one edge, each with its value.
#[derive(Debug, PartialEq, Eq)]
pub struct EdgeParameters {
    pub contents: Arc<Vec<(Arc<str>, FieldValue)>>,
}

impl Clone for EdgeParameters {
    fn clone(&self) -> (copy: Self)
        ensures
            copy == *self,
    {
        EdgeParameters { contents: Arc::clone(&self.contents) }
    }
}

} // verus!
