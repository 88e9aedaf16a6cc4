use vstd::prelude::*;

use crate::error::AssetError;
use crate::mesh::{build_error, drawable, Mesh, MeshBuffers, MeshData, MeshDataView, MeshView, Vertex};
use crate::texture::{
    cache_after, cache_step, first_requests, lemma_cache_after, lemma_cache_after_concat,
    lemma_first_requests_unique, paths_unique, Texture, TextureCache, TextureKind, TextureView,
};

verus! {

/// One sub-mesh of a parsed asset: flat arrays of position, normal and
/// texture coordinate components (float bit patterns, three, three and two
/// per vertex), the triangle corner indices, and the material it uses.
pub struct SubMeshSource {
    pub positions: Vec<u32>,
    pub normals: Vec<u32>,
    pub texcoords: Vec<u32>,
    pub indices: Vec<u32>,
    pub material_id: Option<usize>,
}

/// A material of a parsed asset: the texture file it names for each role,
/// empty where it names none.
pub struct MaterialSource {
    pub diffuse_texture: String,
    pub specular_texture: String,
    pub normal_texture: String,
}

/// A parsed mesh asset: its sub-meshes in file order and its materials.
pub struct AssetSource {
    pub sub_meshes: Vec<SubMeshSource>,
    pub materials: Vec<MaterialSource>,
}

/// How many vertices a sub-mesh has.
pub open spec fn vertex_count(s: SubMeshSource) -> nat {
    s.positions@.len() / 3
}

/// What makes a sub-mesh unusable, checked in this order: positions that do
/// not come in threes; normals or texture coordinates missing or not one per
/// vertex; a material that the asset does not have; then what the mesh
/// builder refuses.
pub open spec fn sub_mesh_error(s: SubMeshSource, material_count: nat) -> Option<AssetError> {
    if s.positions@.len() % 3 != 0 {
        Some(AssetError::ParseFailed)
    } else if s.normals@.len() != s.positions@.len() || 3 * s.texcoords@.len() != 2
        * s.positions@.len() {
        Some(AssetError::MissingVertexAttribute)
    } else if s.material_id is Some && s.material_id->Some_0 >= material_count {
        Some(AssetError::ParseFailed)
    } else {
        build_error(vertex_count(s), s.indices@)
    }
}

/// `v` is vertex `i` of the sub-mesh: the `i`-th triple of positions and of
/// normals and the `i`-th pair of texture coordinates.
pub open spec fn is_vertex_of(v: Vertex, s: SubMeshSource, i: int) -> bool {
    &&& v.position@ == s.positions@.subrange(3 * i, 3 * i + 3)
    &&& v.normal@ == s.normals@.subrange(3 * i, 3 * i + 3)
    &&& v.tex_coords@ == s.texcoords@.subrange(2 * i, 2 * i + 2)
}

/// `vertices` are the sub-mesh's vertices, in order.
pub open spec fn are_vertices_of(vertices: Seq<Vertex>, s: SubMeshSource) -> bool {
    &&& vertices.len() == vertex_count(s)
    &&& forall|i: int| 0 <= i < vertices.len() ==> is_vertex_of(#[trigger] vertices[i], s, i)
}

/// Zips the flat attribute arrays into vertices.
fn assemble_vertices(s: &SubMeshSource) -> (r: Vec<Vertex>)
    requires
        s.positions@.len() % 3 == 0,
        s.normals@.len() == s.positions@.len(),
        3 * s.texcoords@.len() == 2 * s.positions@.len(),
    ensures
        are_vertices_of(r@, *s),
{
    let n = s.positions.len();
    let count = n / 3;
    let mut vertices: Vec<Vertex> = Vec::new();
    let mut i: usize = 0;
    while i < count
        invariant
            0 <= i <= count,
            count == vertex_count(*s),
            s.positions@.len() == 3 * count,
            n == s.positions@.len(),
            s.normals@.len() == 3 * count,
            s.texcoords@.len() == 2 * count,
            vertices@.len() == i,
            forall|j: int| 0 <= j < i ==> is_vertex_of(#[trigger] vertices@[j], *s, j),
        decreases count - i,
    {
        let p = 3 * i;
        let t = 2 * i;
        let v = Vertex {
            position: [s.positions[p], s.positions[p + 1], s.positions[p + 2]],
            normal: [s.normals[p], s.normals[p + 1], s.normals[p + 2]],
            tex_coords: [s.texcoords[t], s.texcoords[t + 1]],
        };
        assert(v.position@ =~= s.positions@.subrange(3 * i, 3 * i + 3));
        assert(v.normal@ =~= s.normals@.subrange(3 * i, 3 * i + 3));
        assert(v.tex_coords@ =~= s.texcoords@.subrange(2 * i, 2 * i + 2));
        vertices.push(v);
        i = i + 1;
    }
    vertices
}

/// The request one material slot makes: none when it names no file.
pub open spec fn slot_request(path: Seq<char>, kind: TextureKind) -> Seq<
    (Seq<char>, TextureKind),
> {
    if path.len() == 0 {
        seq![]
    } else {
        seq![(path, kind)]
    }
}

/// The textures a material asks for: diffuse, specular, then normal, each
/// only where the material names a file for it.
pub open spec fn material_requests(m: MaterialSource) -> Seq<(Seq<char>, TextureKind)> {
    slot_request(m.diffuse_texture@, TextureKind::Diffuse) + slot_request(
        m.specular_texture@,
        TextureKind::Specular,
    ) + slot_request(m.normal_texture@, TextureKind::Normal)
}

/// The textures a sub-mesh asks for: those of its material, if it has one.
pub open spec fn sub_mesh_requests(s: SubMeshSource, materials: Seq<MaterialSource>) -> Seq<
    (Seq<char>, TextureKind),
> {
    if s.material_id is Some {
        material_requests(materials[s.material_id->Some_0 as int])
    } else {
        seq![]
    }
}

/// The textures the sub-meshes ask for, sub-mesh after sub-mesh.
pub open spec fn asset_requests(subs: Seq<SubMeshSource>, materials: Seq<MaterialSource>) -> Seq<
    (Seq<char>, TextureKind),
>
    decreases subs.len(),
{
    if subs.len() == 0 {
        seq![]
    } else {
        asset_requests(subs.drop_last(), materials) + sub_mesh_requests(subs.last(), materials)
    }
}

/// Slot `slots[k]` of the cache holds the path that request `k` asked for.
pub open spec fn slots_serve(
    slots: Seq<usize>,
    cache: Seq<(Seq<char>, TextureKind)>,
    requests: Seq<(Seq<char>, TextureKind)>,
) -> bool {
    &&& slots.len() == requests.len()
    &&& forall|k: int|
        0 <= k < slots.len() ==> #[trigger] slots[k] < cache.len() && cache[slots[k] as int].0
            == requests[k].0
}

/// Slots keep serving their requests when the cache grows at its end.
proof fn lemma_slots_serve_grown(
    slots: Seq<usize>,
    cache: Seq<(Seq<char>, TextureKind)>,
    requests: Seq<(Seq<char>, TextureKind)>,
    more: Seq<(Seq<char>, TextureKind)>,
)
    requires
        slots_serve(slots, cache, requests),
    ensures
        slots_serve(slots, cache_after(cache, more), requests),
{
    lemma_cache_after(cache, more);
    assert forall|k: int| 0 <= k < slots.len() implies #[trigger] slots[k] < cache_after(
        cache,
        more,
    ).len() && cache_after(cache, more)[slots[k] as int].0 == requests[k].0 by {
        assert(cache_after(cache, more)[slots[k] as int] == cache[slots[k] as int]);
    }
}

/// Requests the texture of one material slot, if it names a file, and
/// records the cache slot that serves it.
fn request_slot(
    cache: &mut TextureCache,
    path: &String,
    kind: TextureKind,
    slots: &mut Vec<usize>,
    Ghost(requests): Ghost<Seq<(Seq<char>, TextureKind)>>,
)
    requires
        old(cache).wf(),
        slots_serve(old(slots)@, old(cache)@, requests),
    ensures
        final(cache).wf(),
        final(cache)@ == cache_after(old(cache)@, slot_request(path@, kind)),
        slots_serve(final(slots)@, final(cache)@, requests + slot_request(path@, kind)),
{
    if path.as_str().is_empty() {
        assert(requests + slot_request(path@, kind) =~= requests);
    } else {
        let ghost before = cache@;
        let ghost one = seq![(path@, kind)];
        let i = cache.load_or_get(path, kind);
        proof {
            assert(one.drop_last() =~= Seq::<(Seq<char>, TextureKind)>::empty());
            assert(cache_after(before, one.drop_last()) == before);
            assert(one.last() == (path@, kind));
            assert(cache_after(before, one) == cache_step(before, (path@, kind)));
            lemma_slots_serve_grown(slots@, before, requests, one);
        }
        slots.push(i);
        proof {
            let all = requests + one;
            assert forall|k: int| 0 <= k < slots@.len() implies #[trigger] slots@[k] < cache@.len()
                && cache@[slots@[k] as int].0 == all[k].0 by {
                if k < requests.len() {
                    assert(slots@[k] == old(slots)@[k]);
                }
            }
        }
    }
}

/// Requests the textures of a material from the cache, in slot order, and
/// returns the cache slot that serves each of them.
fn request_textures(cache: &mut TextureCache, material: &MaterialSource) -> (slots: Vec<usize>)
    requires
        old(cache).wf(),
    ensures
        final(cache).wf(),
        final(cache)@ == cache_after(old(cache)@, material_requests(*material)),
        slots_serve(slots@, final(cache)@, material_requests(*material)),
{
    let ghost c0 = cache@;
    let ghost d = slot_request(material.diffuse_texture@, TextureKind::Diffuse);
    let ghost s = slot_request(material.specular_texture@, TextureKind::Specular);
    let ghost n = slot_request(material.normal_texture@, TextureKind::Normal);
    let ghost none = Seq::<(Seq<char>, TextureKind)>::empty();
    let ghost ds = d + s;
    let mut slots: Vec<usize> = Vec::new();
    assert(none + d =~= d);
    request_slot(cache, &material.diffuse_texture, TextureKind::Diffuse, &mut slots, Ghost(none));
    request_slot(cache, &material.specular_texture, TextureKind::Specular, &mut slots, Ghost(d));
    request_slot(cache, &material.normal_texture, TextureKind::Normal, &mut slots, Ghost(ds));
    proof {
        lemma_cache_after_concat(c0, d, s);
        lemma_cache_after_concat(c0, d + s, n);
    }
    slots
}

/// `m` is what sub-mesh `s` becomes: its vertices zipped from the attribute
/// arrays, its indices as they stand, and a cache slot for each texture its
/// material asks for.
pub open spec fn is_mesh_of(
    m: MeshDataView,
    s: SubMeshSource,
    materials: Seq<MaterialSource>,
    cache: Seq<(Seq<char>, TextureKind)>,
) -> bool {
    &&& are_vertices_of(m.vertices, s)
    &&& m.indices == s.indices@
    &&& slots_serve(m.texture_slots, cache, sub_mesh_requests(s, materials))
}

/// A model that is ready for upload: its meshes in asset order, and the
/// textures they use, each distinct path once.
pub struct ModelPlan {
    pub meshes: Vec<MeshData>,
    pub textures: TextureCache,
}

impl ModelPlan {
    /// Every mesh can be drawn, every texture slot names a cache entry, and
    /// no two cache entries share a path.
    pub open spec fn wf(&self) -> bool {
        &&& paths_unique(self.textures@)
        &&& forall|i: int|
            0 <= i < self.meshes@.len() ==> {
                let m = (#[trigger] self.meshes@[i])@;
                &&& drawable(m.vertices, m.indices)
                &&& forall|k: int|
                    0 <= k < m.texture_slots.len() ==> #[trigger] m.texture_slots[k]
                        < self.textures@.len()
            }
    }
}

/// No sub-mesh before `i` is unusable.
pub open spec fn usable_before(asset: AssetSource, i: int) -> bool {
    forall|j: int|
        0 <= j < i ==> sub_mesh_error(#[trigger] asset.sub_meshes@[j], asset.materials@.len())
            is None
}

/// `plan` is what the asset loads into: one mesh per sub-mesh, in the same
/// order, and one texture per distinct path that the sub-meshes ask for.
pub open spec fn is_plan_of(plan: ModelPlan, asset: AssetSource) -> bool {
    &&& plan.meshes@.len() == asset.sub_meshes@.len()
    &&& plan.textures@ == first_requests(asset_requests(asset.sub_meshes@, asset.materials@))
    &&& forall|i: int|
        0 <= i < plan.meshes@.len() ==> is_mesh_of(
            (#[trigger] plan.meshes@[i])@,
            asset.sub_meshes@[i],
            asset.materials@,
            plan.textures@,
        )
}

/// Builds the meshes of a parsed asset, sub-mesh by sub-mesh in file order,
/// and the texture cache they share. Fails with the error of the first
/// unusable sub-mesh.
pub fn plan_model(asset: &AssetSource) -> (r: Result<ModelPlan, AssetError>)
    ensures
        r is Ok <==> usable_before(*asset, asset.sub_meshes@.len() as int),
        r is Err ==> exists|i: int|
            0 <= i < asset.sub_meshes@.len() && usable_before(*asset, i) && sub_mesh_error(
                #[trigger] asset.sub_meshes@[i],
                asset.materials@.len(),
            ) == Some(r->Err_0),
        r is Ok ==> is_plan_of(r->Ok_0, *asset) && r->Ok_0.wf(),
{
    let subs = &asset.sub_meshes;
    let materials = &asset.materials;
    let mut cache = TextureCache::new();
    let mut meshes: Vec<MeshData> = Vec::new();
    let mut i: usize = 0;
    while i < subs.len()
        invariant
            0 <= i <= subs@.len(),
            subs == &asset.sub_meshes,
            materials == &asset.materials,
            usable_before(*asset, i as int),
            meshes@.len() == i,
            cache.wf(),
            cache@ == first_requests(asset_requests(subs@.subrange(0, i as int), materials@)),
            forall|j: int|
                0 <= j < i ==> is_mesh_of(
                    (#[trigger] meshes@[j])@,
                    subs@[j],
                    materials@,
                    cache@,
                ),
        decreases subs@.len() - i,
    {
        let s = &subs[i];
        let n = s.positions.len();
        if n % 3 != 0 {
            return Err(AssetError::ParseFailed);
        }
        let t = s.texcoords.len();
        if s.normals.len() != n || t % 2 != 0 || t / 2 != n / 3 {
            return Err(AssetError::MissingVertexAttribute);
        }
        let ghost before = cache@;
        let slots = match s.material_id {
            Some(m) => {
                if m >= materials.len() {
                    return Err(AssetError::ParseFailed);
                }
                request_textures(&mut cache, &materials[m])
            },
            None => {
                assert(cache_after(before, Seq::empty()) == before);
                Vec::new()
            },
        };
        let vertices = assemble_vertices(s);
        let indices = s.indices.clone();
        assert(indices@ =~= s.indices@);
        let mesh = match MeshData::build(vertices, indices, slots) {
            Ok(mesh) => mesh,
            Err(e) => {
                return Err(e);
            },
        };
        proof {
            let done = subs@.subrange(0, i as int);
            let next = subs@.subrange(0, i + 1);
            assert(next.drop_last() =~= done);
            assert(next.last() == subs@[i as int]);
            lemma_cache_after_concat(
                Seq::empty(),
                asset_requests(done, materials@),
                sub_mesh_requests(subs@[i as int], materials@),
            );
            assert forall|j: int| 0 <= j < i implies is_mesh_of(
                (#[trigger] meshes@[j])@,
                subs@[j],
                materials@,
                cache@,
            ) by {
                lemma_slots_serve_grown(
                    meshes@[j]@.texture_slots,
                    before,
                    sub_mesh_requests(subs@[j], materials@),
                    sub_mesh_requests(subs@[i as int], materials@),
                );
            }
        }
        meshes.push(mesh);
        i = i + 1;
    }
    let plan = ModelPlan { meshes, textures: cache };
    proof {
        assert(subs@.subrange(0, subs@.len() as int) =~= subs@);
        lemma_first_requests_unique(asset_requests(subs@, materials@));
        assert forall|i: int| 0 <= i < plan.meshes@.len() implies {
            let m = (#[trigger] plan.meshes@[i])@;
            &&& drawable(m.vertices, m.indices)
            &&& forall|k: int|
                0 <= k < m.texture_slots.len() ==> #[trigger] m.texture_slots[k]
                    < plan.textures@.len()
        } by {
            assert(sub_mesh_error(subs@[i], materials@.len()) is None);
        }
    }
    Ok(plan)
}

/// The mathematical value of a [`Model`].
pub struct ModelView {
    pub meshes: Seq<MeshView>,
    pub textures: Seq<TextureView>,
    pub directory: Seq<char>,
}

/// The path and kind of each texture.
pub open spec fn texture_keys(textures: Seq<TextureView>) -> Seq<(Seq<char>, TextureKind)> {
    textures.map_values(|t: TextureView| (t.path, t.kind))
}

/// `t` is one of `textures`.
pub open spec fn is_cached(t: TextureView, textures: Seq<TextureView>) -> bool {
    exists|j: int| 0 <= j < textures.len() && textures[j] == t
}

/// A well-formed model: its texture cache holds each path once, every mesh
/// can be drawn, and every texture a mesh binds is one of the cache's.
pub open spec fn model_wf(m: ModelView) -> bool {
    &&& paths_unique(texture_keys(m.textures))
    &&& forall|i: int|
        0 <= i < m.meshes.len() ==> {
            let mesh = #[trigger] m.meshes[i];
            &&& drawable(mesh.vertices, mesh.indices)
            &&& forall|k: int|
                0 <= k < mesh.textures.len() ==> is_cached(#[trigger] mesh.textures[k], m.textures)
        }
}

/// A loaded asset: its meshes in asset order, the texture cache they share,
/// and the directory that texture paths are relative to.
pub struct Model {
    pub(crate) meshes: Vec<Mesh>,
    pub(crate) textures_loaded: Vec<Texture>,
    pub(crate) directory: String,
}

impl View for Model {
    type V = ModelView;

    closed spec fn view(&self) -> ModelView {
        ModelView {
            meshes: self.meshes@.map_values(|m: Mesh| m@),
            textures: self.textures_loaded@.map_values(|t: Texture| t@),
            directory: self.directory@,
        }
    }
}

/// `r` is the model that `plan` becomes with the given texture handles, in
/// cache order, and mesh buffers, in mesh order.
pub open spec fn is_model_of(
    r: ModelView,
    plan: ModelPlan,
    directory: Seq<char>,
    texture_ids: Seq<u32>,
    buffers: Seq<MeshBuffers>,
) -> bool {
    &&& r.directory == directory
    &&& r.textures.len() == plan.textures@.len()
    &&& forall|j: int|
        0 <= j < r.textures.len() ==> #[trigger] r.textures[j] == (TextureView {
            id: texture_ids[j],
            kind: plan.textures@[j].1,
            path: plan.textures@[j].0,
        })
    &&& r.meshes.len() == plan.meshes@.len()
    &&& forall|i: int|
        0 <= i < r.meshes.len() ==> {
            let mesh = #[trigger] r.meshes[i];
            let data = plan.meshes@[i]@;
            &&& mesh.vertices == data.vertices
            &&& mesh.indices == data.indices
            &&& mesh.buffers == buffers[i]
            &&& mesh.textures.len() == data.texture_slots.len()
            &&& forall|k: int|
                0 <= k < mesh.textures.len() ==> #[trigger] mesh.textures[k]
                    == r.textures[data.texture_slots[k] as int]
        }
}

impl Model {
    /// The model a plan becomes once its textures and meshes are on the GPU:
    /// `texture_ids[j]` is the handle of cache entry `j`, and `buffers[i]`
    /// the GPU objects of mesh `i`. Every mesh binds the cache's own handle
    /// for each of its textures, so meshes that use one path share a handle.
    pub fn assemble(
        plan: ModelPlan,
        directory: String,
        texture_ids: &Vec<u32>,
        buffers: &Vec<MeshBuffers>,
    ) -> (r: Model)
        requires
            plan.wf(),
            texture_ids@.len() == plan.textures@.len(),
            buffers@.len() == plan.meshes@.len(),
        ensures
            is_model_of(r@, plan, directory@, texture_ids@, buffers@),
            model_wf(r@),
    {
        let mut textures_loaded: Vec<Texture> = Vec::new();
        let mut j: usize = 0;
        while j < plan.textures.len()
            invariant
                0 <= j <= plan.textures@.len(),
                texture_ids@.len() == plan.textures@.len(),
                textures_loaded@.len() == j,
                forall|q: int|
                    0 <= q < j ==> (#[trigger] textures_loaded@[q])@ == (TextureView {
                        id: texture_ids@[q],
                        kind: plan.textures@[q].1,
                        path: plan.textures@[q].0,
                    }),
            decreases plan.textures@.len() - j,
        {
            let source = plan.textures.get(j);
            textures_loaded.push(
                Texture { id: texture_ids[j], kind: source.kind, path: source.path.clone() },
            );
            j = j + 1;
        }
        let ghost loaded = textures_loaded@.map_values(|t: Texture| t@);
        let mut meshes: Vec<Mesh> = Vec::new();
        let mut i: usize = 0;
        while i < plan.meshes.len()
            invariant
                0 <= i <= plan.meshes@.len(),
                plan.wf(),
                buffers@.len() == plan.meshes@.len(),
                textures_loaded@.len() == plan.textures@.len(),
                loaded == textures_loaded@.map_values(|t: Texture| t@),
                meshes@.len() == i,
                forall|q: int|
                    0 <= q < i ==> {
                        let mesh = (#[trigger] meshes@[q])@;
                        let data = plan.meshes@[q]@;
                        &&& mesh.vertices == data.vertices
                        &&& mesh.indices == data.indices
                        &&& mesh.buffers == buffers@[q]
                        &&& mesh.textures.len() == data.texture_slots.len()
                        &&& forall|k: int|
                            0 <= k < mesh.textures.len() ==> #[trigger] mesh.textures[k]
                                == loaded[data.texture_slots[k] as int]
                    },
            decreases plan.meshes@.len() - i,
        {
            let data = &plan.meshes[i];
            let slots = data.texture_slots();
            assert(plan.meshes@[i as int] == *data);
            let mut textures: Vec<Texture> = Vec::new();
            let mut k: usize = 0;
            while k < slots.len()
                invariant
                    0 <= k <= slots@.len(),
                    slots@ == data@.texture_slots,
                    forall|q: int| 0 <= q < slots@.len() ==> #[trigger] slots@[q] < loaded.len(),
                    loaded == textures_loaded@.map_values(|t: Texture| t@),
                    textures@.len() == k,
                    forall|q: int|
                        0 <= q < k ==> (#[trigger] textures@[q])@ == loaded[slots@[q] as int],
                decreases slots@.len() - k,
            {
                textures.push(textures_loaded[slots[k]].share());
                k = k + 1;
            }
            let mesh = Mesh::from_data(data, textures, buffers[i]);
            meshes.push(mesh);
            i = i + 1;
        }
        let r = Model { meshes, textures_loaded, directory };
        proof {
            lemma_model_wf(r@, plan, directory@, texture_ids@, buffers@);
        }
        r
    }

    /// The meshes, in asset order.
    pub fn meshes(&self) -> (r: &Vec<Mesh>)
        ensures
            r@.map_values(|m: Mesh| m@) == self@.meshes,
    {
        &self.meshes
    }

    /// The texture cache, one texture per distinct path.
    pub fn textures(&self) -> (r: &Vec<Texture>)
        ensures
            r@.map_values(|t: Texture| t@) == self@.textures,
    {
        &self.textures_loaded
    }

    /// The directory that texture paths are relative to.
    pub fn directory(&self) -> (r: &String)
        ensures
            r@ == self@.directory,
    {
        &self.directory
    }
}

/// Loading keeps the asset's structure: the model has exactly one mesh per
/// sub-mesh, and mesh `i` holds the vertices and indices of sub-mesh `i`.
pub proof fn lemma_meshes_follow_sub_meshes(
    asset: AssetSource,
    plan: ModelPlan,
    r: ModelView,
    directory: Seq<char>,
    texture_ids: Seq<u32>,
    buffers: Seq<MeshBuffers>,
)
    requires
        is_plan_of(plan, asset),
        is_model_of(r, plan, directory, texture_ids, buffers),
    ensures
        r.meshes.len() == asset.sub_meshes@.len(),
        forall|i: int|
            0 <= i < r.meshes.len() ==> are_vertices_of(
                (#[trigger] r.meshes[i]).vertices,
                asset.sub_meshes@[i],
            ) && r.meshes[i].indices == asset.sub_meshes@[i].indices@,
{
    assert forall|i: int| 0 <= i < r.meshes.len() implies are_vertices_of(
        (#[trigger] r.meshes[i]).vertices,
        asset.sub_meshes@[i],
    ) && r.meshes[i].indices == asset.sub_meshes@[i].indices@ by {
        assert(is_mesh_of(plan.meshes@[i]@, asset.sub_meshes@[i], asset.materials@, plan.textures@));
    }
}

/// In a well-formed model, two textures that meshes bind from the same path
/// are the same texture, with the same GPU handle.
pub proof fn lemma_same_path_same_handle(m: ModelView, a: int, ka: int, b: int, kb: int)
    requires
        model_wf(m),
        0 <= a < m.meshes.len(),
        0 <= ka < m.meshes[a].textures.len(),
        0 <= b < m.meshes.len(),
        0 <= kb < m.meshes[b].textures.len(),
        m.meshes[a].textures[ka].path == m.meshes[b].textures[kb].path,
    ensures
        m.meshes[a].textures[ka] == m.meshes[b].textures[kb],
        m.meshes[a].textures[ka].id == m.meshes[b].textures[kb].id,
{
    let ta = m.meshes[a].textures[ka];
    let tb = m.meshes[b].textures[kb];
    assert(is_cached(ta, m.textures));
    assert(is_cached(tb, m.textures));
    let ja = choose|j: int| 0 <= j < m.textures.len() && m.textures[j] == ta;
    let jb = choose|j: int| 0 <= j < m.textures.len() && m.textures[j] == tb;
    let keys = texture_keys(m.textures);
    assert(keys[ja].0 == keys[jb].0);
}

/// Sub-meshes that ask for textures from the same path are served by one
/// cache entry, so that path is read and uploaded once, and the loaded model
/// binds one GPU handle for both.
pub proof fn lemma_same_path_one_upload(
    asset: AssetSource,
    plan: ModelPlan,
    r: ModelView,
    directory: Seq<char>,
    texture_ids: Seq<u32>,
    buffers: Seq<MeshBuffers>,
    a: int,
    ka: int,
    b: int,
    kb: int,
)
    requires
        is_plan_of(plan, asset),
        plan.wf(),
        is_model_of(r, plan, directory, texture_ids, buffers),
        0 <= a < asset.sub_meshes@.len(),
        0 <= b < asset.sub_meshes@.len(),
        0 <= ka < sub_mesh_requests(asset.sub_meshes@[a], asset.materials@).len(),
        0 <= kb < sub_mesh_requests(asset.sub_meshes@[b], asset.materials@).len(),
        sub_mesh_requests(asset.sub_meshes@[a], asset.materials@)[ka].0 == sub_mesh_requests(
            asset.sub_meshes@[b],
            asset.materials@,
        )[kb].0,
    ensures
        plan.meshes@[a]@.texture_slots[ka] == plan.meshes@[b]@.texture_slots[kb],
        r.meshes[a].textures[ka].id == r.meshes[b].textures[kb].id,
{
    let subs = asset.sub_meshes@;
    let mats = asset.materials@;
    assert(is_mesh_of(plan.meshes@[a]@, subs[a], mats, plan.textures@));
    assert(is_mesh_of(plan.meshes@[b]@, subs[b], mats, plan.textures@));
    let sa = plan.meshes@[a]@.texture_slots[ka] as int;
    let sb = plan.meshes@[b]@.texture_slots[kb] as int;
    assert(plan.textures@[sa].0 == plan.textures@[sb].0);
    assert(r.meshes[a].textures[ka] == r.textures[sa]);
    assert(r.meshes[b].textures[kb] == r.textures[sb]);
}

/// A model assembled from a well-formed plan is well-formed.
proof fn lemma_model_wf(
    r: ModelView,
    plan: ModelPlan,
    directory: Seq<char>,
    texture_ids: Seq<u32>,
    buffers: Seq<MeshBuffers>,
)
    requires
        plan.wf(),
        is_model_of(r, plan, directory, texture_ids, buffers),
    ensures
        model_wf(r),
{
    let keys = texture_keys(r.textures);
    assert forall|j: int| 0 <= j < keys.len() implies #[trigger] keys[j] == plan.textures@[j] by {
        assert(r.textures[j].path == plan.textures@[j].0);
    }
    assert(keys =~= plan.textures@);
    assert forall|i: int| 0 <= i < r.meshes.len() implies {
        let mesh = #[trigger] r.meshes[i];
        &&& drawable(mesh.vertices, mesh.indices)
        &&& forall|k: int|
            0 <= k < mesh.textures.len() ==> is_cached(#[trigger] mesh.textures[k], r.textures)
    } by {
        let mesh = r.meshes[i];
        let data = plan.meshes@[i]@;
        assert(drawable(data.vertices, data.indices));
        assert(mesh.vertices == data.vertices && mesh.indices == data.indices);
        assert forall|k: int| 0 <= k < mesh.textures.len() implies is_cached(
            #[trigger] mesh.textures[k],
            r.textures,
        ) by {
            let j = data.texture_slots[k] as int;
            assert(j < plan.textures@.len());
            assert(mesh.textures[k] == r.textures[j]);
        }
    }
}

} // verus!
