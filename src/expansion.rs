use vstd::prelude::*;

use crate::catalog::{followed, is_last_named, MorphNodeView, MAX_GROUP_DEPTH};
use crate::morph_type::{effect_of, MorphEffect};
use vstd::arithmetic::power::{lemma_pow_positive, pow};

verus! {

/// Number of morph visits that applying morph `i` at nesting `depth` makes
/// when no branch is cut short by a small weight: one for the morph itself
/// while within the depth budget, plus, for a group, the visits of each
/// followed entry one level deeper. A blend pass also drops branches whose
/// effective weight is negligible, so this bounds the work it does.
pub open spec fn expansion_size(s: Seq<MorphNodeView>, i: int, depth: nat) -> nat
    decreases MAX_GROUP_DEPTH + 1 - depth, s[i].group_targets.len() + 1,
{
    if depth > MAX_GROUP_DEPTH || !(0 <= i < s.len()) {
        0
    } else if effect_of(s[i].morph_type) == MorphEffect::Expand {
        1 + entries_size(s, i, 0, depth)
    } else {
        1
    }
}

/// Visits made by the followed entries of morph `i` from position `j` on,
/// each one level below `depth`.
pub open spec fn entries_size(s: Seq<MorphNodeView>, i: int, j: nat, depth: nat) -> nat
    decreases MAX_GROUP_DEPTH + 1 - depth, s[i].group_targets.len() - j,
{
    if depth > MAX_GROUP_DEPTH || !(0 <= i < s.len()) || j >= s[i].group_targets.len() {
        0
    } else {
        let here = if followed(s, i, j as int) {
            expansion_size(s, s[i].group_targets[j as int] as int, depth + 1)
        } else {
            0
        };
        here + entries_size(s, i, j + 1, depth)
    }
}

proof fn lemma_self_entries_empty(s: Seq<MorphNodeView>, i: int, j: nat, depth: nat)
    requires
        0 <= i < s.len(),
        forall|m: int| 0 <= m < s[i].group_targets.len() ==> s[i].group_targets[m] as int == i,
    ensures
        entries_size(s, i, j, depth) == 0,
    decreases s[i].group_targets.len() - j,
{
    if depth <= MAX_GROUP_DEPTH && j < s[i].group_targets.len() {
        assert(!followed(s, i, j as int));
        lemma_self_entries_empty(s, i, j + 1, depth);
    }
}

/// A group whose entries all point back at itself is visited once and
/// expands into nothing: a direct self-reference is never followed, at any
/// depth within the budget.
pub proof fn lemma_self_reference_not_followed(s: Seq<MorphNodeView>, i: int, depth: nat)
    requires
        0 <= i < s.len(),
        depth <= MAX_GROUP_DEPTH,
        forall|m: int| 0 <= m < s[i].group_targets.len() ==> s[i].group_targets[m] as int == i,
    ensures
        expansion_size(s, i, depth) == 1,
{
    lemma_self_entries_empty(s, i, 0, depth);
}

/// Two groups that each point only at the other form a cycle that still
/// ends: starting from either at nesting `depth`, the visits alternate
/// between the two down to the deepest level of the budget, one per level.
pub proof fn lemma_two_cycle_terminates(s: Seq<MorphNodeView>, a: int, b: int, depth: nat)
    requires
        0 <= a < s.len(),
        0 <= b < s.len(),
        a != b,
        effect_of(s[a].morph_type) == MorphEffect::Expand,
        effect_of(s[b].morph_type) == MorphEffect::Expand,
        s[a].group_targets.len() == 1,
        s[a].group_targets[0] as int == b,
        s[b].group_targets.len() == 1,
        s[b].group_targets[0] as int == a,
        depth <= MAX_GROUP_DEPTH + 1,
    ensures
        expansion_size(s, a, depth) == MAX_GROUP_DEPTH + 1 - depth,
    decreases MAX_GROUP_DEPTH + 1 - depth,
{
    if depth <= MAX_GROUP_DEPTH {
        lemma_two_cycle_terminates(s, b, a, depth + 1);
        assert(followed(s, a, 0));
        assert(entries_size(s, a, 1, depth) == 0);
        assert(entries_size(s, a, 0, depth) == expansion_size(s, b, depth + 1));
    }
}

/// Every morph's group list has at most `k` entries.
pub open spec fn fanout_at_most(s: Seq<MorphNodeView>, k: nat) -> bool {
    forall|i: int| 0 <= i < s.len() ==> #[trigger] s[i].group_targets.len() <= k
}

proof fn lemma_entries_bounded(s: Seq<MorphNodeView>, k: nat, i: int, j: nat, depth: nat)
    requires
        fanout_at_most(s, k),
        0 <= i < s.len(),
        depth <= MAX_GROUP_DEPTH,
        j <= s[i].group_targets.len(),
    ensures
        entries_size(s, i, j, depth) <= (s[i].group_targets.len() - j) * pow(
            (k + 1) as int,
            (MAX_GROUP_DEPTH - depth) as nat,
        ),
    decreases MAX_GROUP_DEPTH + 1 - depth, s[i].group_targets.len() - j,
{
    let len = s[i].group_targets.len();
    let p = pow((k + 1) as int, (MAX_GROUP_DEPTH - depth) as nat);
    lemma_pow_positive((k + 1) as int, (MAX_GROUP_DEPTH - depth) as nat);
    if j < len {
        lemma_entries_bounded(s, k, i, j + 1, depth);
        if followed(s, i, j as int) {
            lemma_expansion_bounded(s, k, s[i].group_targets[j as int] as int, depth + 1);
            assert((MAX_GROUP_DEPTH + 1 - (depth + 1)) as nat == (MAX_GROUP_DEPTH - depth) as nat);
        }
        assert((len - j) * p == p + (len - (j + 1)) * p) by (nonlinear_arith);
    }
}

/// Group expansion does bounded work on every reference graph, cycles
/// included: when no group list has more than `k` entries, applying a morph
/// at nesting `depth` makes at most `(k + 1)` to the power of the levels
/// left in the depth budget visits.
pub proof fn lemma_expansion_bounded(s: Seq<MorphNodeView>, k: nat, i: int, depth: nat)
    requires
        fanout_at_most(s, k),
        depth <= MAX_GROUP_DEPTH + 1,
    ensures
        expansion_size(s, i, depth) <= pow((k + 1) as int, (MAX_GROUP_DEPTH + 1 - depth) as nat),
    decreases MAX_GROUP_DEPTH + 1 - depth, s[i].group_targets.len() + 1,
{
    let e = (MAX_GROUP_DEPTH + 1 - depth) as nat;
    lemma_pow_positive((k + 1) as int, e);
    if depth <= MAX_GROUP_DEPTH && 0 <= i < s.len() {
        let len = s[i].group_targets.len();
        let below = (MAX_GROUP_DEPTH - depth) as nat;
        let p = pow((k + 1) as int, below);
        lemma_pow_positive((k + 1) as int, below);
        if effect_of(s[i].morph_type) == MorphEffect::Expand {
            lemma_entries_bounded(s, k, i, 0, depth);
        }
        assert(pow((k + 1) as int, e) == (k + 1) * p) by {
            reveal(pow);
        }
        assert(len <= k);
        assert(1 + len * p <= (k + 1) * p) by (nonlinear_arith)
            requires
                len <= k,
                p >= 1,
        ;
    }
}

/// After two registrations under one name, a lookup of that name can only
/// give the later index, while the earlier morph keeps its own index.
pub proof fn lemma_duplicate_name_last_wins(
    s: Seq<MorphNodeView>,
    first: MorphNodeView,
    second: MorphNodeView,
    r: Option<usize>,
)
    requires
        first.name == second.name,
        s.len() + 2 <= usize::MAX,
        is_last_named(s.push(first).push(second), second.name, r),
    ensures
        r == Some((s.len() + 1) as usize),
        s.push(first).push(second)[s.len() as int] == first,
        s.push(first).push(second)[(s.len() + 1) as int] == second,
{
    let t = s.push(first).push(second);
    assert(t[(s.len() + 1) as int].name == second.name);
}

} // verus!
