use vstd::prelude::*;

use crate::morph_type::{effect_of, MorphEffect, MorphType};

verus! {

/// Deepest group nesting that a blend pass follows; a visit at a greater
/// depth contributes nothing.
pub const MAX_GROUP_DEPTH: u32 = 16;

/// The part of a registered morph that decides how it is found and how it
/// expands: its name, its kind and the morph indices its group list points at.
pub struct MorphNode {
    pub name: String,
    pub morph_type: MorphType,
    pub group_targets: Vec<u32>,
}

/// A registered morph as the contracts see it.
pub struct MorphNodeView {
    pub name: Seq<char>,
    pub morph_type: MorphType,
    pub group_targets: Seq<u32>,
}

impl View for MorphNode {
    type V = MorphNodeView;

    open spec fn view(&self) -> MorphNodeView {
        MorphNodeView {
            name: self.name@,
            morph_type: self.morph_type,
            group_targets: self.group_targets@,
        }
    }
}

/// The registered morphs in registration order. A morph's index is its
/// position, and stays fixed once assigned.
pub struct MorphCatalog {
    nodes: Vec<MorphNode>,
}

impl View for MorphCatalog {
    type V = Seq<MorphNodeView>;

    closed spec fn view(&self) -> Seq<MorphNodeView> {
        self.nodes@.map_values(|n: MorphNode| n@)
    }
}

/// `r` is what a lookup of `name` must give in `s`: the greatest index that
/// carries the name, or `None` when no morph carries it.
pub open spec fn is_last_named(s: Seq<MorphNodeView>, name: Seq<char>, r: Option<usize>) -> bool {
    match r {
        Some(i) => {
            &&& (i as int) < s.len()
            &&& s[i as int].name == name
            &&& forall|j: int| i < j < s.len() ==> s[j].name != name
        },
        None => forall|j: int| 0 <= j < s.len() ==> s[j].name != name,
    }
}

/// Entry `j` of morph `i`'s group list is followed: it points at an existing
/// morph other than `i` itself.
pub open spec fn followed(s: Seq<MorphNodeView>, i: int, j: int) -> bool {
    &&& 0 <= i < s.len()
    &&& 0 <= j < s[i].group_targets.len()
    &&& (s[i].group_targets[j] as int) < s.len()
    &&& s[i].group_targets[j] as int != i
}

/// `r` lists, in ascending order and each once, exactly the followed entry
/// positions of morph `i`.
pub open spec fn is_followed_list(s: Seq<MorphNodeView>, i: int, r: Seq<usize>) -> bool {
    &&& forall|k: int| 0 <= k < r.len() ==> followed(s, i, #[trigger] r[k] as int)
    &&& forall|k1: int, k2: int| 0 <= k1 < k2 < r.len() ==> r[k1] < r[k2]
    &&& forall|j: int| followed(s, i, j) ==> exists|k: int| 0 <= k < r.len() && r[k] == j
}

/// What one visit of a morph during a blend pass does.
pub enum VisitPlan {
    /// Nothing: the effective weight is negligible, the depth budget is
    /// spent or the index names no morph.
    Skip,
    /// Recurse one level deeper into the group entries at these positions.
    Expand(Vec<usize>),
    /// Apply the morph's own payload with this effect (never `Expand`).
    Apply(MorphEffect),
}

impl MorphCatalog {
    pub fn new() -> (r: MorphCatalog)
        ensures
            r@ == Seq::<MorphNodeView>::empty(),
    {
        let r = MorphCatalog { nodes: Vec::new() };
        assert(r@ =~= Seq::<MorphNodeView>::empty());
        r
    }

    /// Number of registered morphs.
    pub fn morph_count(&self) -> (r: usize)
        ensures
            r == self@.len(),
    {
        self.nodes.len()
    }

    /// Registers a morph under the next index, which it returns. A name used
    /// before stays on the earlier morph too; lookup by name then finds the
    /// newer one.
    pub fn add_morph(&mut self, name: String, morph_type: MorphType, group_targets: Vec<u32>) -> (index: usize)
        requires
            old(self)@.len() < usize::MAX,
        ensures
            index == old(self)@.len(),
            final(self)@ == old(self)@.push(
                MorphNodeView { name: name@, morph_type: morph_type, group_targets: group_targets@ },
            ),
    {
        let index = self.nodes.len();
        let node = MorphNode { name, morph_type, group_targets };
        self.nodes.push(node);
        assert(self@ =~= old(self)@.push(node@));
        index
    }

    /// The kind of the morph at `index`, or `None` past the end.
    pub fn morph_type(&self, index: usize) -> (r: Option<MorphType>)
        ensures
            r == (if (index as int) < self@.len() {
                Some(self@[index as int].morph_type)
            } else {
                None::<MorphType>
            }),
    {
        if index < self.nodes.len() {
            Some(self.nodes[index].morph_type)
        } else {
            None
        }
    }

    /// The morph index that entry `entry` of morph `index`'s group list points
    /// at, or `None` when there is no such entry.
    pub fn group_target(&self, index: usize, entry: usize) -> (r: Option<u32>)
        ensures
            r == (if (index as int) < self@.len() && (entry as int) < self@[index as int].group_targets.len() {
                Some(self@[index as int].group_targets[entry as int])
            } else {
                None::<u32>
            }),
    {
        if index < self.nodes.len() && entry < self.nodes[index].group_targets.len() {
            assert(self.nodes[index as int].group_targets@ == self@[index as int].group_targets);
            Some(self.nodes[index].group_targets[entry])
        } else {
            None
        }
    }

    /// The index of the most recently registered morph named `name`.
    pub fn find_morph_by_name(&self, name: &str) -> (r: Option<usize>)
        ensures
            is_last_named(self@, name@, r),
    {
        let key = name.to_owned();
        let mut i: usize = self.nodes.len();
        while i > 0
            invariant
                i <= self.nodes@.len(),
                key@ == name@,
                forall|j: int| i <= j < self@.len() ==> self@[j].name != name@,
            decreases i,
        {
            i = i - 1;
            if self.nodes[i].name == key {
                return Some(i);
            }
        }
        None
    }

    /// The positions, in ascending order, of the group entries of morph
    /// `index` that a blend pass follows: those pointing at an existing morph
    /// other than `index` itself.
    pub fn followed_entries(&self, index: usize) -> (r: Vec<usize>)
        requires
            (index as int) < self@.len(),
        ensures
            is_followed_list(self@, index as int, r@),
    {
        let n = self.nodes.len();
        let targets = &self.nodes[index].group_targets;
        assert(targets@ == self@[index as int].group_targets);
        let mut r: Vec<usize> = Vec::new();
        let mut j: usize = 0;
        while j < targets.len()
            invariant
                n == self@.len(),
                (index as int) < n,
                targets@ == self@[index as int].group_targets,
                j <= targets@.len(),
                forall|k: int| 0 <= k < r@.len() ==> followed(self@, index as int, #[trigger] r@[k] as int),
                forall|k: int| 0 <= k < r@.len() ==> r@[k] < j,
                forall|k1: int, k2: int| 0 <= k1 < k2 < r@.len() ==> r@[k1] < r@[k2],
                forall|m: int| 0 <= m < j && followed(self@, index as int, m) ==> exists|k: int| 0 <= k < r@.len() && r@[k] == m,
            decreases targets@.len() - j,
        {
            let t = targets[j] as usize;
            let ghost before = r@;
            if t < n && t != index {
                r.push(j);
                assert forall|m: int| 0 <= m <= j && followed(self@, index as int, m) implies exists|k: int|
                    0 <= k < r@.len() && r@[k] == m by {
                    if m < j {
                        let k = choose|k: int| 0 <= k < before.len() && before[k] == m;
                        assert(r@[k] == m);
                    } else {
                        assert(r@[r@.len() - 1] == m);
                    }
                }
            }
            j = j + 1;
        }
        r
    }

    /// Decides one visit of morph `index` at group nesting `depth`, where
    /// `negligible` tells whether the visit's effective weight is too small to
    /// count: skip it then, or past the depth budget or the end of the
    /// catalog; else expand a group or a flip into its followed entries, or
    /// apply any other kind's payload.
    pub fn plan_visit(&self, index: usize, depth: u32, negligible: bool) -> (r: VisitPlan)
        ensures
            negligible || depth > MAX_GROUP_DEPTH || index as int >= self@.len() ==> r is Skip,
            !negligible && depth <= MAX_GROUP_DEPTH && (index as int) < self@.len() ==> {
                let e = effect_of(self@[index as int].morph_type);
                match r {
                    VisitPlan::Skip => false,
                    VisitPlan::Expand(v) => e == MorphEffect::Expand && is_followed_list(
                        self@,
                        index as int,
                        v@,
                    ),
                    VisitPlan::Apply(f) => e != MorphEffect::Expand && f == e,
                }
            },
    {
        if negligible || !within_depth_budget(depth) {
            return VisitPlan::Skip;
        }
        match self.morph_type(index) {
            None => VisitPlan::Skip,
            Some(t) => {
                let e = t.effect();
                if t.is_group_like() {
                    VisitPlan::Expand(self.followed_entries(index))
                } else {
                    VisitPlan::Apply(e)
                }
            },
        }
    }
}

/// Whether a visit at nesting `depth` is still within the group budget.
pub fn within_depth_budget(depth: u32) -> (r: bool)
    ensures
        r == (depth <= MAX_GROUP_DEPTH),
{
    depth <= MAX_GROUP_DEPTH
}

} // verus!
