use vstd::prelude::*;
use crate::assets::AssetKind;

verus! {

/// What can go wrong in the engine.
#[derive(Debug)]
pub enum EngineError {
    /// A descriptor names an asset that its category does not have.
    AssetNotFound { category: AssetKind, name: Vec<u8> },
    /// No render unit has this name.
    UnknownRenderUnit { name: Vec<u8> },
    /// The unit has no instance at this position.
    InstanceNotFound { unit: Vec<u8> },
    /// A mesh line, counted from 0, is not a header, a vertex or an index.
    MalformedMesh { line: usize },
    /// A descriptor is not a JSON object, or lacks a text field.
    MalformedDescriptor { field: Vec<u8> },
    /// A projection descriptor's `type` is neither `orthogonal` nor `perspective`.
    UnknownProjectionType,
}

} // verus!
