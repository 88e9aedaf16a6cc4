use vstd::prelude::*;

use crate::mesh::{Mesh, MeshView};
use crate::model::Model;
use crate::texture::{kind_name, Texture, TextureKind, TextureView};

verus! {

/// The character of a decimal digit below ten.
pub open spec fn digit_char(d: nat) -> char {
    seq!['0', '1', '2', '3', '4', '5', '6', '7', '8', '9'][d as int]
}

/// The decimal digits of `n`, most significant first, with no leading zero.
pub open spec fn decimal(n: nat) -> Seq<char>
    decreases n,
{
    if n < 10 {
        seq![digit_char(n)]
    } else {
        decimal(n / 10) + seq![digit_char(n % 10)]
    }
}

/// The one-character literal of a decimal digit.
fn digit_str(d: usize) -> (r: &'static str)
    requires
        d < 10,
    ensures
        r@ == seq![digit_char(d as nat)],
{
    proof {
        reveal_strlit("0");
        reveal_strlit("1");
        reveal_strlit("2");
        reveal_strlit("3");
        reveal_strlit("4");
        reveal_strlit("5");
        reveal_strlit("6");
        reveal_strlit("7");
        reveal_strlit("8");
        reveal_strlit("9");
    }
    let r = match d {
        0 => "0",
        1 => "1",
        2 => "2",
        3 => "3",
        4 => "4",
        5 => "5",
        6 => "6",
        7 => "7",
        8 => "8",
        _ => "9",
    };
    assert(r@ =~= seq![digit_char(d as nat)]);
    r
}

/// Appends the decimal digits of `n` to `s`.
fn append_decimal(s: &mut String, n: usize)
    ensures
        final(s)@ == old(s)@ + decimal(n as nat),
    decreases n,
{
    if n >= 10 {
        append_decimal(s, n / 10);
    }
    s.append(digit_str(n % 10));
    assert(s@ =~= old(s)@ + decimal(n as nat)) by {
        if n >= 10 {
            assert(decimal(n as nat) == decimal((n / 10) as nat) + seq![digit_char((n % 10) as nat)]);
        }
    }
}

/// The sampler uniform that the `number`-th texture of a kind binds to:
/// `material.texture_<kind><number>`.
pub open spec fn uniform_name(kind: TextureKind, number: nat) -> Seq<char> {
    "material.texture_"@ + kind_name(kind) + decimal(number)
}

/// Builds the sampler uniform name for the `number`-th texture of a kind.
pub fn sampler_uniform(kind: TextureKind, number: usize) -> (r: String)
    ensures
        r@ == uniform_name(kind, number as nat),
{
    let mut name = "material.texture_".to_owned();
    name.append(kind.name());
    append_decimal(&mut name, number);
    name
}

/// How many of `textures` are of `kind`.
pub open spec fn count_kind(textures: Seq<TextureView>, kind: TextureKind) -> nat
    decreases textures.len(),
{
    if textures.len() == 0 {
        0
    } else {
        count_kind(textures.drop_last(), kind) + if textures.last().kind == kind {
            1nat
        } else {
            0nat
        }
    }
}

/// A texture bound for a draw: the texture unit, the sampler uniform set to
/// that unit, and the texture handle bound to it.
pub struct TextureBinding {
    pub unit: usize,
    pub uniform: String,
    pub texture_id: u32,
}

/// `bindings` bind `textures` in order: texture `k` goes to unit `k`, under
/// the uniform numbered by how many textures of its kind come before it,
/// counting from one for each kind.
pub open spec fn binds_in_order(bindings: Seq<TextureBinding>, textures: Seq<TextureView>) -> bool {
    &&& bindings.len() == textures.len()
    &&& forall|k: int|
        0 <= k < bindings.len() ==> {
            let b = #[trigger] bindings[k];
            &&& b.unit == k
            &&& b.texture_id == textures[k].id
            &&& b.uniform@ == uniform_name(
                textures[k].kind,
                count_kind(textures.take(k), textures[k].kind) + 1,
            )
        }
}

/// The bindings a mesh's textures get when it is drawn.
pub fn texture_bindings(textures: &Vec<Texture>) -> (r: Vec<TextureBinding>)
    ensures
        binds_in_order(r@, textures@.map_values(|t: Texture| t@)),
{
    let ghost views = textures@.map_values(|t: Texture| t@);
    let mut bindings: Vec<TextureBinding> = Vec::new();
    let mut diffuse: usize = 0;
    let mut specular: usize = 0;
    let mut normal: usize = 0;
    let mut k: usize = 0;
    while k < textures.len()
        invariant
            0 <= k <= textures@.len(),
            views == textures@.map_values(|t: Texture| t@),
            diffuse == count_kind(views.take(k as int), TextureKind::Diffuse),
            specular == count_kind(views.take(k as int), TextureKind::Specular),
            normal == count_kind(views.take(k as int), TextureKind::Normal),
            diffuse <= k && specular <= k && normal <= k,
            binds_in_order(bindings@, views.take(k as int)),
        decreases textures@.len() - k,
    {
        let texture = &textures[k];
        let number = match texture.kind {
            TextureKind::Diffuse => {
                diffuse = diffuse + 1;
                diffuse
            },
            TextureKind::Specular => {
                specular = specular + 1;
                specular
            },
            TextureKind::Normal => {
                normal = normal + 1;
                normal
            },
        };
        let uniform = sampler_uniform(texture.kind, number);
        let ghost before = bindings@;
        bindings.push(TextureBinding { unit: k, uniform, texture_id: texture.id });
        proof {
            let done = views.take(k as int);
            let next = views.take(k + 1);
            assert(next.drop_last() =~= done);
            assert(next.last() == views[k as int]);
            assert forall|q: int| 0 <= q < bindings@.len() implies {
                let b = #[trigger] bindings@[q];
                &&& b.unit == q
                &&& b.texture_id == next[q].id
                &&& b.uniform@ == uniform_name(
                    next[q].kind,
                    count_kind(next.take(q), next[q].kind) + 1,
                )
            } by {
                assert(next.take(q) =~= if q < k {
                    done.take(q)
                } else {
                    done
                });
                if q < k {
                    assert(bindings@[q] == before[q]);
                    assert(next[q] == done[q]);
                }
            }
        }
        k = k + 1;
    }
    assert(views.take(textures@.len() as int) =~= views);
    bindings
}

/// What one mesh's draw does: bind its textures, bind its vertex array and
/// draw all of its indices.
pub struct MeshDraw {
    pub bindings: Vec<TextureBinding>,
    pub vao: u32,
    pub index_count: usize,
}

/// `draw` is the draw of `mesh`.
pub open spec fn draws_mesh(draw: MeshDraw, mesh: MeshView) -> bool {
    &&& binds_in_order(draw.bindings@, mesh.textures)
    &&& draw.vao == mesh.buffers.vao
    &&& draw.index_count == mesh.indices.len()
}

/// The draws of a model, one per mesh in the model's order.
pub fn draw_calls(model: &Model) -> (r: Vec<MeshDraw>)
    ensures
        r@.len() == model@.meshes.len(),
        forall|i: int| 0 <= i < r@.len() ==> draws_mesh(#[trigger] r@[i], model@.meshes[i]),
{
    let meshes = model.meshes();
    let mut draws: Vec<MeshDraw> = Vec::new();
    let mut i: usize = 0;
    while i < meshes.len()
        invariant
            0 <= i <= meshes@.len(),
            meshes@.map_values(|m: Mesh| m@) == model@.meshes,
            draws@.len() == i,
            forall|q: int| 0 <= q < i ==> draws_mesh(#[trigger] draws@[q], meshes@[q]@),
        decreases meshes@.len() - i,
    {
        let mesh = &meshes[i];
        let textures = mesh.textures();
        let bindings = texture_bindings(textures);
        draws.push(
            MeshDraw { bindings, vao: mesh.buffers().vao, index_count: mesh.indices().len() },
        );
        i = i + 1;
    }
    draws
}

} // verus!
