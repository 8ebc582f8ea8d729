//! Morph-target blending: the verified decisions of a per-frame blend pass.
//!
//! A catalog of registered morphs answers name lookups (the latest
//! registration of a name wins) and plans each visit of the recursive pass:
//! which kind of payload to apply, or which group entries to follow, under a
//! fixed depth budget that makes cyclic group graphs harmless. Helpers decide
//! which buffer slots an offset reaches and how a material offset folds in.

mod catalog;
mod expansion;
mod morph_type;
mod targets;

pub use catalog::{
    followed, is_followed_list, is_last_named, within_depth_budget, MorphCatalog, MorphNodeView,
    VisitPlan, MAX_GROUP_DEPTH,
};
pub use expansion::{
    entries_size, expansion_size, fanout_at_most, lemma_duplicate_name_last_wins,
    lemma_expansion_bounded, lemma_self_reference_not_followed, lemma_two_cycle_terminates,
};
pub use morph_type::{effect_of, MorphEffect, MorphType};
pub use targets::{
    material_targets, material_targets_spec, operation_of, slot_of, MaterialOperation,
};
