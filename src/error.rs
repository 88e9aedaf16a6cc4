use vstd::prelude::*;

verus! {

/// Why loading an asset failed. Every error is fatal to the load that met it.
#[derive(Debug, Clone, Copy, PartialEq, Eq, Structural)]
pub enum AssetError {
    /// The asset or material description is malformed or unreadable.
    ParseFailed,
    /// A sub-mesh lacks the normals or texture coordinates the vertex layout needs.
    MissingVertexAttribute,
    /// An image file is missing, or its bytes cannot be decoded into an image
    /// with a GPU pixel format and sample type.
    TextureDecodeFailed,
    /// A mesh was given no vertices or no indices.
    EmptyMesh,
    /// A mesh index names a vertex past the end of the vertex list.
    IndexOutOfRange,
}

} // verus!
