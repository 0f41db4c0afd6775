//! Alignment operations and the quantities summed over a list of them.

use vstd::prelude::*;

verus! {

/// How one stretch of a read relates to the reference.
#[derive(Clone, Copy, Debug, PartialEq, Eq)]
pub enum OperationKind {
    /// Aligned bases, equal or not (`M`).
    Match,
    /// Aligned bases that equal the reference (`=`).
    SequenceMatch,
    /// Aligned bases that differ from the reference (`X`).
    SequenceMismatch,
    /// Bases present in the read only (`I`).
    Insertion,
    /// Bases present in the reference only (`D`).
    Deletion,
    /// A gap on the reference that the read jumps over, such as an intron (`N`).
    ReferenceSkip,
    /// Read bases left out of the alignment but kept in the read (`S`).
    SoftClip,
    /// Read bases left out of the alignment and of the read (`H`).
    HardClip,
    /// Any operation that is none of the above.
    Other,
}

impl OperationKind {
    /// The operation lengthens the exon block that is currently open.
    pub open spec fn extends_block(self) -> bool {
        self is Match || self is SequenceMatch || self is SequenceMismatch || self is Deletion
    }

    /// The operation moves the position on the reference: it either lengthens
    /// the open block or jumps over a gap.
    pub open spec fn advances_reference(self) -> bool {
        self.extends_block() || self is ReferenceSkip
    }

    /// The operation's bases count towards the aligned fraction of the read.
    /// Mismatching bases (`X`) deliberately do not.
    pub open spec fn counts_as_aligned(self) -> bool {
        self is Match || self is SequenceMatch
    }
}

/// One alignment operation: its kind and the number of bases it covers.
#[derive(Clone, Copy, Debug, PartialEq, Eq)]
pub struct CigarOp {
    pub kind: OperationKind,
    pub len: u32,
}

impl CigarOp {
    /// Reference bases that the operation moves over.
    pub open spec fn reference_len(self) -> nat {
        if self.kind.advances_reference() {
            self.len as nat
        } else {
            0
        }
    }

    /// Bases that the operation adds to the aligned-base count.
    pub open spec fn aligned_len(self) -> nat {
        if self.kind.counts_as_aligned() {
            self.len as nat
        } else {
            0
        }
    }
}

/// Sum of the lengths of all operations.
pub open spec fn total_length(ops: Seq<CigarOp>) -> nat
    decreases ops.len(),
{
    if ops.len() == 0 {
        0
    } else {
        total_length(ops.drop_last()) + ops.last().len as nat
    }
}

/// Reference bases that the operations move over, gaps counted.
pub open spec fn reference_span(ops: Seq<CigarOp>) -> nat
    decreases ops.len(),
{
    if ops.len() == 0 {
        0
    } else {
        reference_span(ops.drop_last()) + ops.last().reference_len()
    }
}

/// Bases of the read that count as aligned: the lengths of `Match` and
/// `SequenceMatch` operations.
pub open spec fn aligned_bases(ops: Seq<CigarOp>) -> nat
    decreases ops.len(),
{
    if ops.len() == 0 {
        0
    } else {
        aligned_bases(ops.drop_last()) + ops.last().aligned_len()
    }
}

/// Number of operations of kind `Other`.
pub open spec fn unknown_operations(ops: Seq<CigarOp>) -> nat
    decreases ops.len(),
{
    if ops.len() == 0 {
        0
    } else {
        unknown_operations(ops.drop_last()) + if ops.last().kind is Other {
            1nat
        } else {
            0nat
        }
    }
}

/// No operation adds more aligned bases than the largest length an operation
/// can have.
pub proof fn lemma_aligned_bases_bound(ops: Seq<CigarOp>)
    ensures
        aligned_bases(ops) <= ops.len() * u32::MAX,
    decreases ops.len(),
{
    if ops.len() > 0 {
        lemma_aligned_bases_bound(ops.drop_last());
        assert((ops.len() - 1) * u32::MAX + u32::MAX == ops.len() * u32::MAX)
            by (nonlinear_arith);
    }
}

/// Counts the aligned bases of an operation list.
pub fn count_aligned_bases(ops: &[CigarOp]) -> (total: u128)
    ensures
        total == aligned_bases(ops@),
{
    let mut total: u128 = 0;
    let mut i: usize = 0;
    while i < ops.len()
        invariant
            i <= ops.len(),
            total == aligned_bases(ops@.take(i as int)),
            total <= i * u32::MAX,
        decreases ops.len() - i,
    {
        let op = ops[i];
        proof {
            assert(ops@.take(i + 1).drop_last() =~= ops@.take(i as int));
            assert(i * u32::MAX + u32::MAX == (i + 1) * u32::MAX) by (nonlinear_arith);
            assert(i * u32::MAX <= usize::MAX * u32::MAX) by (nonlinear_arith)
                requires
                    i <= usize::MAX,
            ;
        }
        match op.kind {
            OperationKind::Match | OperationKind::SequenceMatch => {
                total = total + op.len as u128;
            },
            _ => {},
        }
        i = i + 1;
    }
    proof {
        assert(ops@.take(ops.len() as int) =~= ops@);
    }
    total
}

/// Counts the operations of kind `Other`.
pub fn count_unknown_operations(ops: &[CigarOp]) -> (count: usize)
    ensures
        count == unknown_operations(ops@),
{
    let mut count: usize = 0;
    let mut i: usize = 0;
    while i < ops.len()
        invariant
            i <= ops.len(),
            count == unknown_operations(ops@.take(i as int)),
            count <= i,
        decreases ops.len() - i,
    {
        let op = ops[i];
        proof {
            assert(ops@.take(i + 1).drop_last() =~= ops@.take(i as int));
        }
        match op.kind {
            OperationKind::Other => {
                count = count + 1;
            },
            _ => {},
        }
        i = i + 1;
    }
    proof {
        assert(ops@.take(ops.len() as int) =~= ops@);
    }
    count
}

} // verus!
