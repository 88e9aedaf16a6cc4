use vstd::prelude::*;

use crate::error::AssetError;
use crate::texture::{Texture, TextureView};

verus! {

/// One vertex: position, normal and texture coordinate. Each component is
/// kept as the bit pattern of its 32-bit float, so that the library moves
/// vertex data without reading it and the GPU receives it exactly.
#[derive(Debug, Clone, Copy, PartialEq, Eq)]
pub struct Vertex {
    pub position: [u32; 3],
    pub normal: [u32; 3],
    pub tex_coords: [u32; 2],
}

/// Number of 32-bit words in one vertex.
pub const VERTEX_WORDS: usize = 8;

/// Bytes from the start of one vertex to the start of the next.
pub const VERTEX_STRIDE: usize = 32;

/// The words of one vertex in field order.
pub open spec fn vertex_words(v: Vertex) -> Seq<u32> {
    v.position@ + v.normal@ + v.tex_coords@
}

/// `words` holds the vertices one after another, each in field order.
pub open spec fn is_interleaving(words: Seq<u32>, vertices: Seq<Vertex>) -> bool {
    &&& words.len() == VERTEX_WORDS * vertices.len()
    &&& forall|i: int, j: int|
        0 <= i < vertices.len() && 0 <= j < VERTEX_WORDS ==> #[trigger] words[VERTEX_WORDS * i + j]
            == (#[trigger] vertex_words(vertices[i]))[j]
}

/// The vertex buffer contents: every vertex's words, vertex after vertex.
pub fn interleave_vertices(vertices: &Vec<Vertex>) -> (r: Vec<u32>)
    requires
        vertices@.len() * VERTEX_WORDS <= usize::MAX,
    ensures
        is_interleaving(r@, vertices@),
{
    let mut words: Vec<u32> = Vec::new();
    let mut i: usize = 0;
    while i < vertices.len()
        invariant
            0 <= i <= vertices@.len(),
            vertices@.len() * VERTEX_WORDS <= usize::MAX,
            is_interleaving(words@, vertices@.subrange(0, i as int)),
        decreases vertices@.len() - i,
    {
        let v = vertices[i];
        let ghost before = words@;
        words.push(v.position[0]);
        words.push(v.position[1]);
        words.push(v.position[2]);
        words.push(v.normal[0]);
        words.push(v.normal[1]);
        words.push(v.normal[2]);
        words.push(v.tex_coords[0]);
        words.push(v.tex_coords[1]);
        proof {
            let done = vertices@.subrange(0, i as int);
            let next = vertices@.subrange(0, i + 1);
            assert forall|k: int, j: int|
                0 <= k < next.len() && 0 <= j < VERTEX_WORDS implies #[trigger] words@[VERTEX_WORDS
                * k + j] == (#[trigger] vertex_words(next[k]))[j] by {
                if k < i {
                    assert(next[k] == done[k]);
                    assert(before[VERTEX_WORDS * k + j] == vertex_words(done[k])[j]);
                } else {
                    assert(next[k] == v);
                }
            }
        }
        i = i + 1;
    }
    assert(vertices@.subrange(0, vertices@.len() as int) =~= vertices@);
    words
}

/// Where one vertex attribute lives in the vertex buffer: the shader slot it
/// feeds, how many 32-bit float components it has, and its byte offset
/// within a vertex.
#[derive(Debug, Clone, Copy, PartialEq, Eq, Structural)]
pub struct VertexAttribute {
    pub slot: u32,
    pub components: u32,
    pub offset: usize,
}

/// The fixed attribute layout: position in slot 0, normal in slot 1 and
/// texture coordinate in slot 2, at the byte offsets of the vertex fields.
pub open spec fn layout() -> Seq<VertexAttribute> {
    seq![
        VertexAttribute { slot: 0, components: 3, offset: 0 },
        VertexAttribute { slot: 1, components: 3, offset: 12 },
        VertexAttribute { slot: 2, components: 2, offset: 24 },
    ]
}

/// The attributes a mesh's vertex array declares, all with stride
/// [`VERTEX_STRIDE`].
pub fn vertex_layout() -> (r: Vec<VertexAttribute>)
    ensures
        r@ == layout(),
{
    let r = vec![
        VertexAttribute { slot: 0, components: 3, offset: 0 },
        VertexAttribute { slot: 1, components: 3, offset: 12 },
        VertexAttribute { slot: 2, components: 2, offset: 24 },
    ];
    assert(r@ =~= layout());
    r
}

/// Every index names a vertex below `vertex_count`.
pub open spec fn indices_in_range(indices: Seq<u32>, vertex_count: nat) -> bool {
    forall|k: int| 0 <= k < indices.len() ==> (#[trigger] indices[k]) < vertex_count
}

/// What the mesh builder refuses: no vertices or no indices, then an index
/// past the last vertex.
pub open spec fn build_error(vertex_count: nat, indices: Seq<u32>) -> Option<AssetError> {
    if vertex_count == 0 || indices.len() == 0 {
        Some(AssetError::EmptyMesh)
    } else if !indices_in_range(indices, vertex_count) {
        Some(AssetError::IndexOutOfRange)
    } else {
        None
    }
}

/// A mesh that can be drawn: vertices and indices, and every index in range.
pub open spec fn drawable(vertices: Seq<Vertex>, indices: Seq<u32>) -> bool {
    build_error(vertices.len(), indices) is None
}

/// The mathematical value of [`MeshData`].
pub struct MeshDataView {
    pub vertices: Seq<Vertex>,
    pub indices: Seq<u32>,
    pub texture_slots: Seq<usize>,
}

/// A validated mesh before it reaches the GPU: its vertices, its triangle
/// corner indices, and for each of its textures the slot of that texture in
/// the model's texture cache.
pub struct MeshData {
    pub(crate) vertices: Vec<Vertex>,
    pub(crate) indices: Vec<u32>,
    pub(crate) texture_slots: Vec<usize>,
}

impl View for MeshData {
    type V = MeshDataView;

    closed spec fn view(&self) -> MeshDataView {
        MeshDataView {
            vertices: self.vertices@,
            indices: self.indices@,
            texture_slots: self.texture_slots@,
        }
    }
}

impl MeshData {
    /// Checks and assembles the data of one mesh. Fails with `EmptyMesh`
    /// when there are no vertices or no indices, and with `IndexOutOfRange`
    /// when an index names a vertex that does not exist.
    pub fn build(vertices: Vec<Vertex>, indices: Vec<u32>, texture_slots: Vec<usize>) -> (r: Result<
        MeshData,
        AssetError,
    >)
        ensures
            r is Err <==> build_error(vertices@.len(), indices@) is Some,
            r is Err ==> build_error(vertices@.len(), indices@) == Some(r->Err_0),
            r is Ok ==> r->Ok_0@ == (MeshDataView {
                vertices: vertices@,
                indices: indices@,
                texture_slots: texture_slots@,
            }),
    {
        if vertices.len() == 0 || indices.len() == 0 {
            return Err(AssetError::EmptyMesh);
        }
        let count = vertices.len();
        let mut k: usize = 0;
        while k < indices.len()
            invariant
                0 <= k <= indices@.len(),
                count == vertices@.len(),
                count > 0,
                indices@.len() > 0,
                indices_in_range(indices@.subrange(0, k as int), count as nat),
            decreases indices@.len() - k,
        {
            if indices[k] as usize >= count {
                assert(indices@[k as int] as nat >= vertices@.len());
                assert(!indices_in_range(indices@, vertices@.len()));
                return Err(AssetError::IndexOutOfRange);
            }
            assert(indices@.subrange(0, k + 1) =~= indices@.subrange(0, k as int).push(
                indices@[k as int],
            ));
            k = k + 1;
        }
        assert(indices@.subrange(0, indices@.len() as int) =~= indices@);
        Ok(MeshData { vertices, indices, texture_slots })
    }

    /// The vertices, in order.
    pub fn vertices(&self) -> (r: &Vec<Vertex>)
        ensures
            r@ == self@.vertices,
    {
        &self.vertices
    }

    /// The triangle corner indices, in order.
    pub fn indices(&self) -> (r: &Vec<u32>)
        ensures
            r@ == self@.indices,
    {
        &self.indices
    }

    /// The cache slot of each texture, in binding order.
    pub fn texture_slots(&self) -> (r: &Vec<usize>)
        ensures
            r@ == self@.texture_slots,
    {
        &self.texture_slots
    }
}

/// The GPU objects of one mesh: its vertex array and its vertex and index
/// buffers.
#[derive(Debug, Clone, Copy, PartialEq, Eq, Structural)]
pub struct MeshBuffers {
    pub vao: u32,
    pub vbo: u32,
    pub ebo: u32,
}

/// The mathematical value of a [`Mesh`].
pub struct MeshView {
    pub vertices: Seq<Vertex>,
    pub indices: Seq<u32>,
    pub textures: Seq<TextureView>,
    pub buffers: MeshBuffers,
}

/// A drawable unit resident on the GPU: vertices, triangle corner indices,
/// the textures it binds in order, and its GPU objects. It does not change
/// once built.
pub struct Mesh {
    pub(crate) vertices: Vec<Vertex>,
    pub(crate) indices: Vec<u32>,
    pub(crate) textures: Vec<Texture>,
    pub(crate) buffers: MeshBuffers,
}

impl View for Mesh {
    type V = MeshView;

    closed spec fn view(&self) -> MeshView {
        MeshView {
            vertices: self.vertices@,
            indices: self.indices@,
            textures: self.textures@.map_values(|t: Texture| t@),
            buffers: self.buffers,
        }
    }
}

impl Mesh {
    /// The mesh that `data` becomes once its buffers are on the GPU and its
    /// texture slots are resolved to `textures`.
    pub fn from_data(data: &MeshData, textures: Vec<Texture>, buffers: MeshBuffers) -> (r: Mesh)
        ensures
            r@ == (MeshView {
                vertices: data@.vertices,
                indices: data@.indices,
                textures: textures@.map_values(|t: Texture| t@),
                buffers,
            }),
    {
        let vertices = data.vertices.clone();
        let indices = data.indices.clone();
        assert(vertices@ =~= data.vertices@);
        assert(indices@ =~= data.indices@);
        Mesh { vertices, indices, textures, buffers }
    }

    /// The vertices, in order.
    pub fn vertices(&self) -> (r: &Vec<Vertex>)
        ensures
            r@ == self@.vertices,
    {
        &self.vertices
    }

    /// The triangle corner indices, in order.
    pub fn indices(&self) -> (r: &Vec<u32>)
        ensures
            r@ == self@.indices,
    {
        &self.indices
    }

    /// The textures, in binding order.
    pub fn textures(&self) -> (r: &Vec<Texture>)
        ensures
            r@.map_values(|t: Texture| t@) == self@.textures,
    {
        &self.textures
    }

    /// The GPU objects.
    pub fn buffers(&self) -> (r: MeshBuffers)
        ensures
            r == self@.buffers,
    {
        self.buffers
    }
}

} // verus!
