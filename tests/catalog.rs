use morph_engine::{within_depth_budget, MorphCatalog, MorphEffect, MorphType, VisitPlan, MAX_GROUP_DEPTH};

fn group(catalog: &mut MorphCatalog, name: &str, targets: Vec<u32>) -> usize {
    catalog.add_morph(name.to_string(), MorphType::Group, targets)
}

/// Counts the visits that a blend pass makes from `index` when no weight is negligible.
fn count_visits(catalog: &MorphCatalog, index: usize, depth: u32) -> u64 {
    match catalog.plan_visit(index, depth, false) {
        VisitPlan::Skip => 0,
        VisitPlan::Apply(_) => 1,
        VisitPlan::Expand(entries) => {
            1 + entries
                .iter()
                .map(|&j| {
                    let target = catalog.group_target(index, j).unwrap();
                    count_visits(catalog, target as usize, depth + 1)
                })
                .sum::<u64>()
        }
    }
}

#[test]
fn indices_follow_registration_order() {
    let mut c = MorphCatalog::new();
    assert_eq!(c.morph_count(), 0);
    assert_eq!(c.add_morph("Blink".to_string(), MorphType::Vertex, vec![]), 0);
    assert_eq!(c.add_morph("Brow".to_string(), MorphType::Bone, vec![]), 1);
    assert_eq!(c.morph_count(), 2);
    assert_eq!(c.morph_type(0), Some(MorphType::Vertex));
    assert_eq!(c.morph_type(1), Some(MorphType::Bone));
    assert_eq!(c.morph_type(2), None);
}

#[test]
fn duplicate_name_lookup_finds_second_registration() {
    let mut c = MorphCatalog::new();
    let first = c.add_morph("Smile".to_string(), MorphType::Vertex, vec![]);
    let second = c.add_morph("Smile".to_string(), MorphType::Material, vec![]);
    assert_eq!(first, 0);
    assert_eq!(second, 1);
    assert_eq!(c.find_morph_by_name("Smile"), Some(1));
    assert_eq!(c.morph_type(first), Some(MorphType::Vertex));
    assert_eq!(c.morph_type(second), Some(MorphType::Material));
}

#[test]
fn lookup_of_unknown_name_is_absent() {
    let mut c = MorphCatalog::new();
    assert_eq!(c.find_morph_by_name("Smile"), None);
    c.add_morph("Smile".to_string(), MorphType::Vertex, vec![]);
    c.add_morph("Wink".to_string(), MorphType::Vertex, vec![]);
    assert_eq!(c.find_morph_by_name("Wink"), Some(1));
    assert_eq!(c.find_morph_by_name("Smile"), Some(0));
    assert_eq!(c.find_morph_by_name("smile"), None);
    assert_eq!(c.find_morph_by_name(""), None);
}

#[test]
fn group_target_reads_the_entry() {
    let mut c = MorphCatalog::new();
    group(&mut c, "G", vec![4, 0]);
    assert_eq!(c.group_target(0, 0), Some(4));
    assert_eq!(c.group_target(0, 1), Some(0));
    assert_eq!(c.group_target(0, 2), None);
    assert_eq!(c.group_target(1, 0), None);
}

#[test]
fn followed_entries_skip_self_and_out_of_range() {
    let mut c = MorphCatalog::new();
    c.add_morph("A".to_string(), MorphType::Vertex, vec![]);
    group(&mut c, "G", vec![1, 0, 9, 0, 1]);
    assert_eq!(c.followed_entries(1), vec![1, 3]);
    assert_eq!(c.followed_entries(0), Vec::<usize>::new());
}

#[test]
fn depth_budget_is_sixteen_levels() {
    assert_eq!(MAX_GROUP_DEPTH, 16);
    assert!(within_depth_budget(0));
    assert!(within_depth_budget(16));
    assert!(!within_depth_budget(17));
    assert!(!within_depth_budget(u32::MAX));
}

#[test]
fn plan_visit_dispatches_by_kind() {
    let mut c = MorphCatalog::new();
    c.add_morph("V".to_string(), MorphType::Vertex, vec![]);
    c.add_morph("U".to_string(), MorphType::AdditionalUv1, vec![]);
    c.add_morph("I".to_string(), MorphType::Impulse, vec![]);
    c.add_morph("F".to_string(), MorphType::Flip, vec![0, 3, 1]);
    assert!(matches!(c.plan_visit(0, 0, false), VisitPlan::Apply(MorphEffect::MoveVertices)));
    assert!(matches!(c.plan_visit(1, 5, false), VisitPlan::Apply(MorphEffect::ShiftUvs)));
    assert!(matches!(c.plan_visit(2, 0, false), VisitPlan::Apply(MorphEffect::Inert)));
    match c.plan_visit(3, 16, false) {
        VisitPlan::Expand(entries) => assert_eq!(entries, vec![0, 2]),
        _ => panic!("a flip expands"),
    }
}

#[test]
fn plan_visit_skips_past_budget_or_catalog() {
    let mut c = MorphCatalog::new();
    c.add_morph("V".to_string(), MorphType::Vertex, vec![]);
    assert!(matches!(c.plan_visit(0, 17, false), VisitPlan::Skip));
    assert!(matches!(c.plan_visit(1, 0, false), VisitPlan::Skip));
}

#[test]
fn negligible_weight_skips_every_kind() {
    let mut c = MorphCatalog::new();
    c.add_morph("V".to_string(), MorphType::Vertex, vec![]);
    c.add_morph("M".to_string(), MorphType::Material, vec![]);
    group(&mut c, "G", vec![0, 1]);
    assert!(matches!(c.plan_visit(0, 0, true), VisitPlan::Skip));
    assert!(matches!(c.plan_visit(1, 0, true), VisitPlan::Skip));
    assert!(matches!(c.plan_visit(2, 0, true), VisitPlan::Skip));
    assert!(matches!(c.plan_visit(1, 0, false), VisitPlan::Apply(MorphEffect::BlendMaterials)));
}

#[test]
fn self_referencing_group_does_not_recurse() {
    let mut c = MorphCatalog::new();
    group(&mut c, "Self", vec![0, 0]);
    match c.plan_visit(0, 0, false) {
        VisitPlan::Expand(entries) => assert!(entries.is_empty()),
        _ => panic!("a group expands"),
    }
}

#[test]
fn two_group_cycle_stops_after_depth_sixteen() {
    let mut c = MorphCatalog::new();
    group(&mut c, "A", vec![1]);
    group(&mut c, "B", vec![0]);
    assert_eq!(count_visits(&c, 0, 0), 17);
    assert_eq!(count_visits(&c, 1, 10), 7);
    assert_eq!(count_visits(&c, 0, 17), 0);
}
