use render_core::mesh::{
    interleave_vertices, vertex_layout, MeshData, Vertex, VertexAttribute, VERTEX_STRIDE,
    VERTEX_WORDS,
};
use render_core::AssetError;

fn vertex(seed: u32) -> Vertex {
    Vertex {
        position: [seed, seed + 1, seed + 2],
        normal: [seed + 3, seed + 4, seed + 5],
        tex_coords: [seed + 6, seed + 7],
    }
}

#[test]
fn empty_vertex_list_is_refused() {
    let r = MeshData::build(vec![], vec![0, 1, 2], vec![]);
    assert_eq!(r.err(), Some(AssetError::EmptyMesh));
}

#[test]
fn empty_index_list_is_refused() {
    let r = MeshData::build(vec![vertex(0)], vec![], vec![]);
    assert_eq!(r.err(), Some(AssetError::EmptyMesh));
}

#[test]
fn out_of_range_index_is_refused() {
    let r = MeshData::build(vec![vertex(0), vertex(10), vertex(20)], vec![0, 1, 3], vec![]);
    assert_eq!(r.err(), Some(AssetError::IndexOutOfRange));
}

#[test]
fn valid_mesh_keeps_its_data() {
    let vs = vec![vertex(0), vertex(10), vertex(20)];
    let m = MeshData::build(vs.clone(), vec![0, 1, 2, 2, 1, 0], vec![4]).unwrap();
    assert_eq!(m.vertices(), &vs);
    assert_eq!(m.indices(), &vec![0, 1, 2, 2, 1, 0]);
    assert_eq!(m.texture_slots(), &vec![4]);
}

#[test]
fn vertices_interleave_in_field_order() {
    let words = interleave_vertices(&vec![vertex(0), vertex(100)]);
    assert_eq!(words.len(), 2 * VERTEX_WORDS);
    assert_eq!(&words[..8], &[0, 1, 2, 3, 4, 5, 6, 7]);
    assert_eq!(&words[8..], &[100, 101, 102, 103, 104, 105, 106, 107]);
    assert!(interleave_vertices(&vec![]).is_empty());
}

#[test]
fn layout_has_fixed_slots_and_offsets() {
    let layout = vertex_layout();
    assert_eq!(
        layout,
        vec![
            VertexAttribute { slot: 0, components: 3, offset: 0 },
            VertexAttribute { slot: 1, components: 3, offset: 12 },
            VertexAttribute { slot: 2, components: 2, offset: 24 },
        ]
    );
    assert_eq!(VERTEX_STRIDE, 8 * std::mem::size_of::<f32>());
}
