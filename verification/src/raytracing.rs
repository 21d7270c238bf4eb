//! Materials of the ray-traced scene, as far as the shader's material codes
//! and the light list go.
use vstd::prelude::*;

verus! {

/// Material code of Lambertian surfaces.
pub const MAT_LAMBERTIAN: u32 = 0;
/// Material code of metal surfaces.
pub const MAT_METAL: u32 = 1;
/// Material code of dielectric surfaces.
pub const MAT_DIELECTRIC: u32 = 2;
/// Material code of emissive surfaces.
pub const MAT_EMISSIVE: u32 = 3;

/// The kind of a cube's material.
#[derive(Debug, Clone, Copy, PartialEq, Eq, Structural)]
pub enum MaterialKind {
    Lambertian,
    Metal,
    Dielectric,
    Emissive,
}

/// The code the shader reads for a material kind.
pub open spec fn spec_material_code(kind: MaterialKind) -> u32 {
    match kind {
        MaterialKind::Lambertian => MAT_LAMBERTIAN,
        MaterialKind::Metal => MAT_METAL,
        MaterialKind::Dielectric => MAT_DIELECTRIC,
        MaterialKind::Emissive => MAT_EMISSIVE,
    }
}

/// The code the shader reads for a material kind.
pub fn material_code(kind: MaterialKind) -> (r: u32)
    ensures
        r == spec_material_code(kind),
{
    match kind {
        MaterialKind::Lambertian => MAT_LAMBERTIAN,
        MaterialKind::Metal => MAT_METAL,
        MaterialKind::Dielectric => MAT_DIELECTRIC,
        MaterialKind::Emissive => MAT_EMISSIVE,
    }
}

/// The indices, in increasing order, of the emissive cubes among the first
/// `upto`.
pub open spec fn emissive_indices(kinds: Seq<MaterialKind>, upto: nat) -> Seq<u32>
    decreases upto,
{
    if upto == 0 {
        Seq::empty()
    } else {
        let prev = emissive_indices(kinds, (upto - 1) as nat);
        if kinds[upto - 1] == MaterialKind::Emissive {
            prev.push((upto - 1) as u32)
        } else {
            prev
        }
    }
}

/// The indices of the emissive cubes (the lights), in increasing order.
pub fn light_indices(kinds: &[MaterialKind]) -> (r: Vec<u32>)
    ensures
        r@ == emissive_indices(kinds@, kinds@.len()),
{
    let mut out: Vec<u32> = Vec::new();
    for i in 0..kinds.len()
        invariant
            out@ == emissive_indices(kinds@, i as nat),
    {
        if kinds[i] == MaterialKind::Emissive {
            out.push(i as u32);
        }
    }
    out
}

proof fn lemma_emissive_indices(kinds: Seq<MaterialKind>, upto: nat)
    requires
        upto <= kinds.len(),
        kinds.len() <= u32::MAX + 1,
    ensures
        forall|j: int| 0 <= j < emissive_indices(kinds, upto).len() ==> {
            let x = #[trigger] emissive_indices(kinds, upto)[j];
            x < upto && kinds[x as int] == MaterialKind::Emissive
        },
        forall|i: int| 0 <= i < upto && kinds[i] == MaterialKind::Emissive ==> #[trigger] emissive_indices(kinds, upto).contains(
            i as u32,
        ),
        forall|j: int, l: int| 0 <= j < l < emissive_indices(kinds, upto).len() ==> #[trigger] emissive_indices(kinds, upto)[j]
            < #[trigger] emissive_indices(kinds, upto)[l],
    decreases upto,
{
    if upto > 0 {
        let p = emissive_indices(kinds, (upto - 1) as nat);
        lemma_emissive_indices(kinds, (upto - 1) as nat);
        let r = emissive_indices(kinds, upto);
        if kinds[upto - 1] == MaterialKind::Emissive {
            assert(r == p.push((upto - 1) as u32));
            assert forall|i: int| 0 <= i < upto && kinds[i] == MaterialKind::Emissive implies r.contains(i as u32) by {
                if i < upto - 1 {
                    assert(p.contains(i as u32));
                    let j = choose|j: int| 0 <= j < p.len() && p[j] == i as u32;
                    assert(r[j] == i as u32);
                } else {
                    assert(r[p.len() as int] == i as u32);
                }
            }
        }
    }
}

/// The light list holds exactly the emissive cubes: each index in it is that
/// of an emissive cube, each emissive cube's index is in it, and the indices
/// come in strictly increasing order (so each appears once).
pub proof fn law_lights_are_the_emissive_cubes(kinds: Seq<MaterialKind>)
    requires
        kinds.len() <= u32::MAX + 1,
    ensures
        forall|j: int| 0 <= j < emissive_indices(kinds, kinds.len()).len() ==> {
            let x = #[trigger] emissive_indices(kinds, kinds.len())[j];
            x < kinds.len() && kinds[x as int] == MaterialKind::Emissive
        },
        forall|i: int| 0 <= i < kinds.len() && kinds[i] == MaterialKind::Emissive ==> #[trigger] emissive_indices(kinds, kinds.len()).contains(
            i as u32,
        ),
        forall|j: int, l: int| 0 <= j < l < emissive_indices(kinds, kinds.len()).len() ==> #[trigger] emissive_indices(kinds, kinds.len())[j]
            < #[trigger] emissive_indices(kinds, kinds.len())[l],
{
    lemma_emissive_indices(kinds, kinds.len());
}

} // verus!
