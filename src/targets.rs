use vstd::prelude::*;

verus! {

/// How a material offset folds into an accumulator channel.
#[derive(Clone, Copy, Debug, PartialEq, Eq, Structural)]
pub enum MaterialOperation {
    /// `v *= (1 - w) + offset * w`; neutral element 1.
    Multiply,
    /// `v += offset * w`; neutral element 0.
    Additive,
}

/// The operation that an offset's tag selects: 0 multiplies, every other tag adds.
pub open spec fn operation_of(code: u8) -> MaterialOperation {
    if code == 0 {
        MaterialOperation::Multiply
    } else {
        MaterialOperation::Additive
    }
}

impl MaterialOperation {
    /// Decodes an offset's operation tag.
    pub fn from_code(code: u8) -> (r: MaterialOperation)
        ensures
            r == operation_of(code),
    {
        if code == 0 {
            MaterialOperation::Multiply
        } else {
            MaterialOperation::Additive
        }
    }
}

/// The slot that an index of a vertex, a bone or a material names in a
/// buffer of `len` entries, or `None` when it lies outside the buffer.
pub fn slot_of(index: u32, len: usize) -> (r: Option<usize>)
    ensures
        r == (if (index as int) < (len as int) {
            Some(index as usize)
        } else {
            None::<usize>
        }),
{
    if (index as usize) < len {
        Some(index as usize)
    } else {
        None
    }
}

/// The accumulators that a material offset reaches: every one of them for a
/// negative index, the one it names when that index is in range, none else.
pub open spec fn material_targets_spec(material_index: i32, material_count: nat) -> Seq<usize> {
    if material_index < 0 {
        Seq::new(material_count, |k: int| k as usize)
    } else if (material_index as int) < material_count {
        seq![material_index as usize]
    } else {
        Seq::empty()
    }
}

/// Lists, in ascending order, the accumulators that a material offset with
/// index `material_index` touches among `material_count` materials.
pub fn material_targets(material_index: i32, material_count: usize) -> (r: Vec<usize>)
    ensures
        r@ == material_targets_spec(material_index, material_count as nat),
{
    let mut r: Vec<usize> = Vec::new();
    if material_index < 0 {
        let mut k: usize = 0;
        while k < material_count
            invariant
                k <= material_count,
                r@ == Seq::new(k as nat, |m: int| m as usize),
            decreases material_count - k,
        {
            r.push(k);
            k = k + 1;
            assert(r@ =~= Seq::new(k as nat, |m: int| m as usize));
        }
    } else if (material_index as usize) < material_count {
        r.push(material_index as usize);
        assert(r@ =~= seq![material_index as usize]);
    } else {
        assert(r@ =~= Seq::<usize>::empty());
    }
    r
}

} // verus!
