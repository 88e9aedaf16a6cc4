use render_core::mesh::{MeshBuffers, MeshData, Vertex};
use render_core::model::{plan_model, AssetSource, MaterialSource, Model, SubMeshSource};
use render_core::render::{draw_calls, sampler_uniform, texture_bindings};
use render_core::texture::{Texture, TextureKind};

fn texture(id: u32, kind: TextureKind) -> Texture {
    Texture { id, kind, path: format!("t{}.png", id) }
}

#[test]
fn uniform_names_count_per_kind() {
    let textures = vec![
        texture(5, TextureKind::Diffuse),
        texture(6, TextureKind::Specular),
        texture(7, TextureKind::Diffuse),
        texture(8, TextureKind::Normal),
        texture(9, TextureKind::Specular),
    ];
    let bindings = texture_bindings(&textures);
    let names: Vec<&str> = bindings.iter().map(|b| b.uniform.as_str()).collect();
    assert_eq!(
        names,
        vec![
            "material.texture_diffuse1",
            "material.texture_specular1",
            "material.texture_diffuse2",
            "material.texture_normal1",
            "material.texture_specular2",
        ]
    );
    let units: Vec<usize> = bindings.iter().map(|b| b.unit).collect();
    assert_eq!(units, vec![0, 1, 2, 3, 4]);
    let ids: Vec<u32> = bindings.iter().map(|b| b.texture_id).collect();
    assert_eq!(ids, vec![5, 6, 7, 8, 9]);
}

#[test]
fn uniform_number_is_written_in_decimal() {
    assert_eq!(sampler_uniform(TextureKind::Diffuse, 12), "material.texture_diffuse12");
    assert_eq!(sampler_uniform(TextureKind::Normal, 0), "material.texture_normal0");
    assert_eq!(sampler_uniform(TextureKind::Specular, 305), "material.texture_specular305");
}

#[test]
fn mesh_without_textures_binds_nothing() {
    assert!(texture_bindings(&vec![]).is_empty());
}

#[test]
fn draws_follow_mesh_order() {
    let sub = |n: usize, material_id: Option<usize>| SubMeshSource {
        positions: vec![0; 3 * n],
        normals: vec![0; 3 * n],
        texcoords: vec![0; 2 * n],
        indices: (0..n as u32).collect(),
        material_id,
    };
    let asset = AssetSource {
        sub_meshes: vec![sub(3, Some(0)), sub(6, None)],
        materials: vec![MaterialSource {
            diffuse_texture: String::from("d.png"),
            specular_texture: String::from("s.png"),
            normal_texture: String::new(),
        }],
    };
    let plan = plan_model(&asset).unwrap();
    let buffers = vec![
        MeshBuffers { vao: 1, vbo: 2, ebo: 3 },
        MeshBuffers { vao: 4, vbo: 5, ebo: 6 },
    ];
    let model = Model::assemble(plan, String::new(), &vec![40, 41], &buffers);
    let draws = draw_calls(&model);
    assert_eq!(draws.len(), 2);
    assert_eq!((draws[0].vao, draws[0].index_count), (1, 3));
    assert_eq!((draws[1].vao, draws[1].index_count), (4, 6));
    assert_eq!(draws[0].bindings.len(), 2);
    assert_eq!(draws[0].bindings[0].uniform, "material.texture_diffuse1");
    assert_eq!(draws[0].bindings[1].uniform, "material.texture_specular1");
    assert_eq!(draws[0].bindings[1].texture_id, 41);
    assert!(draws[1].bindings.is_empty());
}

#[test]
fn mesh_from_data_keeps_data() {
    let v = Vertex { position: [1, 2, 3], normal: [4, 5, 6], tex_coords: [7, 8] };
    let data = MeshData::build(vec![v, v], vec![0, 1, 1], vec![]).unwrap();
    let mesh = render_core::mesh::Mesh::from_data(
        &data,
        vec![texture(2, TextureKind::Diffuse)],
        MeshBuffers { vao: 9, vbo: 8, ebo: 7 },
    );
    assert_eq!(mesh.vertices(), &vec![v, v]);
    assert_eq!(mesh.indices(), &vec![0, 1, 1]);
    assert_eq!(mesh.textures()[0].id, 2);
    assert_eq!(mesh.buffers().vao, 9);
}
