use vstd::prelude::*;

verus! {

/// The closed set of morph kinds. Each kind makes exactly one payload list
/// of a morph meaningful.
#[derive(Clone, Copy, Debug, PartialEq, Eq, Structural)]
pub enum MorphType {
    Group,
    Vertex,
    Bone,
    Uv,
    AdditionalUv1,
    AdditionalUv2,
    AdditionalUv3,
    AdditionalUv4,
    Material,
    Flip,
    Impulse,
}

/// What applying a morph of a given kind does during a blend pass.
#[derive(Clone, Copy, Debug, PartialEq, Eq, Structural)]
pub enum MorphEffect {
    /// Expand the weighted list of sub-morphs.
    Expand,
    /// Offset vertex positions.
    MoveVertices,
    /// Offset bone translation and rotation.
    MoveBones,
    /// Fold tints into the per-material accumulators.
    BlendMaterials,
    /// Offset the primary texture coordinates.
    ShiftUvs,
    /// Recognised, but produces nothing.
    Inert,
}

/// The effect of each kind: groups and flips both expand, the primary UV
/// channel and the first additional one both shift primary UVs, the other
/// UV channels and impulses are inert.
pub open spec fn effect_of(t: MorphType) -> MorphEffect {
    match t {
        MorphType::Group | MorphType::Flip => MorphEffect::Expand,
        MorphType::Vertex => MorphEffect::MoveVertices,
        MorphType::Bone => MorphEffect::MoveBones,
        MorphType::Material => MorphEffect::BlendMaterials,
        MorphType::Uv | MorphType::AdditionalUv1 => MorphEffect::ShiftUvs,
        MorphType::AdditionalUv2
        | MorphType::AdditionalUv3
        | MorphType::AdditionalUv4
        | MorphType::Impulse => MorphEffect::Inert,
    }
}

impl MorphType {
    /// The effect that a morph of this kind has when applied.
    pub fn effect(&self) -> (r: MorphEffect)
        ensures
            r == effect_of(*self),
    {
        match self {
            MorphType::Group | MorphType::Flip => MorphEffect::Expand,
            MorphType::Vertex => MorphEffect::MoveVertices,
            MorphType::Bone => MorphEffect::MoveBones,
            MorphType::Material => MorphEffect::BlendMaterials,
            MorphType::Uv | MorphType::AdditionalUv1 => MorphEffect::ShiftUvs,
            MorphType::AdditionalUv2
            | MorphType::AdditionalUv3
            | MorphType::AdditionalUv4
            | MorphType::Impulse => MorphEffect::Inert,
        }
    }

    /// Whether a morph of this kind expands into other morphs.
    pub fn is_group_like(&self) -> (r: bool)
        ensures
            r == (effect_of(*self) == MorphEffect::Expand),
    {
        matches!(self, MorphType::Group | MorphType::Flip)
    }
}

} // verus!
