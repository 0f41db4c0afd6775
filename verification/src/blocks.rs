//! Decomposition of an alignment into exon blocks.
//!
//! The alignment is walked from its start coordinate with a cursor on the
//! reference. Operations that consume reference bases lengthen the block that
//! is currently open; a `ReferenceSkip` closes it, provided it is not empty,
//! and opens the next one behind the gap. When the walk ends, the block that
//! is still open is closed whatever its length.

use vstd::prelude::*;
use crate::cigar::{reference_span, CigarOp, OperationKind};
use crate::error::ExtractError;

verus! {

/// A span of reference coordinates, 1-based, both ends counted.
pub struct Interval {
    pub start: int,
    pub end: int,
}

/// An exon block: a span of reference coordinates, 1-based, both ends counted.
///
/// A block that was closed without covering any base has `start == end + 1`.
#[derive(Clone, Copy, Debug, PartialEq, Eq)]
pub struct ExonBlock {
    pub start: u32,
    pub end: u32,
}

impl View for ExonBlock {
    type V = Interval;

    open spec fn view(&self) -> Interval {
        Interval { start: self.start as int, end: self.end as int }
    }
}

/// The spans of a list of blocks.
pub open spec fn intervals(blocks: Seq<ExonBlock>) -> Seq<Interval> {
    blocks.map_values(|b: ExonBlock| b@)
}

/// 0-based position of the cursor after the operations: the end of the open block.
pub open spec fn cursor_end(start: int, ops: Seq<CigarOp>) -> int {
    start + reference_span(ops)
}

/// 0-based position at which the open block began: behind the last gap, or at
/// the alignment's start where there was no gap.
pub open spec fn block_origin(start: int, ops: Seq<CigarOp>) -> int
    decreases ops.len(),
{
    if ops.len() == 0 {
        start
    } else if ops.last().kind is ReferenceSkip {
        cursor_end(start, ops)
    } else {
        block_origin(start, ops.drop_last())
    }
}

/// The block that is open after the operations, as it would be closed now.
pub open spec fn open_block(start: int, ops: Seq<CigarOp>) -> Interval {
    Interval { start: block_origin(start, ops) + 1, end: cursor_end(start, ops) }
}

/// The blocks that gaps have closed during the operations. A gap closes the
/// open block only if that block covers at least one base.
pub open spec fn closed_blocks(start: int, ops: Seq<CigarOp>) -> Seq<Interval>
    decreases ops.len(),
{
    if ops.len() == 0 {
        Seq::empty()
    } else {
        let before = ops.drop_last();
        if ops.last().kind is ReferenceSkip && cursor_end(start, before) > block_origin(
            start,
            before,
        ) {
            closed_blocks(start, before).push(open_block(start, before))
        } else {
            closed_blocks(start, before)
        }
    }
}

/// The exon blocks of an alignment that starts at the 0-based coordinate
/// `start`: the blocks closed by gaps, then the block left open at the end.
pub open spec fn exon_blocks(start: int, ops: Seq<CigarOp>) -> Seq<Interval> {
    closed_blocks(start, ops).push(open_block(start, ops))
}

/// Every coordinate of the blocks can be held in an `ExonBlock`.
pub open spec fn representable(blocks: Seq<Interval>) -> bool {
    forall|i: int|
        0 <= i < blocks.len() ==> 0 <= (#[trigger] blocks[i]).start <= u32::MAX && 0
            <= blocks[i].end <= u32::MAX
}

/// The reference span of a prefix is at most that of the whole list.
pub proof fn lemma_reference_span_prefix(ops: Seq<CigarOp>, n: int)
    requires
        0 <= n <= ops.len(),
    ensures
        reference_span(ops.take(n)) <= reference_span(ops),
    decreases ops.len(),
{
    if n == ops.len() {
        assert(ops.take(n) =~= ops);
    } else {
        assert(ops.drop_last().take(n) =~= ops.take(n));
        lemma_reference_span_prefix(ops.drop_last(), n);
    }
}

/// The open block begins between the alignment's start and the cursor, and
/// every closed block lies on or before its origin and covers at least one base.
pub proof fn lemma_walk_bounds(start: int, ops: Seq<CigarOp>)
    ensures
        start <= block_origin(start, ops) <= cursor_end(start, ops),
        forall|i: int|
            0 <= i < closed_blocks(start, ops).len() ==> {
                let b = #[trigger] closed_blocks(start, ops)[i];
                start < b.start <= b.end <= block_origin(start, ops)
            },
    decreases ops.len(),
{
    if ops.len() > 0 {
        let before = ops.drop_last();
        lemma_walk_bounds(start, before);
        assert(block_origin(start, before) <= block_origin(start, ops));
        assert forall|i: int| 0 <= i < closed_blocks(start, ops).len() implies {
            let b = #[trigger] closed_blocks(start, ops)[i];
            start < b.start <= b.end <= block_origin(start, ops)
        } by {
            if i < closed_blocks(start, before).len() {
                assert(closed_blocks(start, ops)[i] == closed_blocks(start, before)[i]);
            }
        }
    }
}

/// The blocks fit exactly when the last one does: all others lie before it.
pub proof fn lemma_representable(start: int, ops: Seq<CigarOp>)
    requires
        0 <= start,
    ensures
        representable(exon_blocks(start, ops)) <==> (block_origin(start, ops) < u32::MAX
            && cursor_end(start, ops) <= u32::MAX),
{
    lemma_walk_bounds(start, ops);
    let blocks = exon_blocks(start, ops);
    let last = blocks.len() - 1;
    assert(blocks[last] == open_block(start, ops));
    if block_origin(start, ops) < u32::MAX && cursor_end(start, ops) <= u32::MAX {
        assert forall|i: int| 0 <= i < blocks.len() implies 0 <= (#[trigger] blocks[i]).start
            <= u32::MAX && 0 <= blocks[i].end <= u32::MAX by {
            if i < last {
                assert(blocks[i] == closed_blocks(start, ops)[i]);
            }
        }
    }
}

/// Splits an alignment into its exon blocks.
///
/// `start` is the 0-based coordinate of the first aligned base. The blocks
/// come back in the order of the walk, with 1-based coordinates. The result is
/// an error exactly when some coordinate of some block does not fit.
pub fn decompose(start: u32, ops: &[CigarOp]) -> (result: Result<Vec<ExonBlock>, ExtractError>)
    ensures
        match result {
            Ok(blocks) => representable(exon_blocks(start as int, ops@)) && intervals(blocks@)
                == exon_blocks(start as int, ops@),
            Err(e) => !representable(exon_blocks(start as int, ops@)) && e
                == ExtractError::CoordinateOverflow,
        },
{
    let mut blocks: Vec<ExonBlock> = Vec::new();
    let mut exon_start: u32 = start;
    let mut exon_end: u32 = start;
    let mut i: usize = 0;
    while i < ops.len()
        invariant
            i <= ops.len(),
            exon_start == block_origin(start as int, ops@.take(i as int)),
            exon_end == cursor_end(start as int, ops@.take(i as int)),
            intervals(blocks@) == closed_blocks(start as int, ops@.take(i as int)),
        decreases ops.len() - i,
    {
        let op = ops[i];
        proof {
            assert(ops@.take(i + 1).drop_last() =~= ops@.take(i as int));
            assert(ops@.take(i + 1).last() == op);
            lemma_reference_span_prefix(ops@, i + 1);
            lemma_representable(start as int, ops@);
            lemma_walk_bounds(start as int, ops@.take(i as int));
        }
        match op.kind {
            OperationKind::Match
            | OperationKind::SequenceMatch
            | OperationKind::SequenceMismatch
            | OperationKind::Deletion => {
                match exon_end.checked_add(op.len) {
                    Some(end) => {
                        exon_end = end;
                    },
                    None => {
                        return Err(ExtractError::CoordinateOverflow);
                    },
                }
            },
            OperationKind::ReferenceSkip => {
                if exon_end > exon_start {
                    let closed = ExonBlock { start: exon_start + 1, end: exon_end };
                    let ghost earlier = blocks@;
                    blocks.push(closed);
                    proof {
                        assert(intervals(blocks@) =~= intervals(earlier).push(closed@));
                    }
                }
                match exon_end.checked_add(op.len) {
                    Some(end) => {
                        exon_start = end;
                        exon_end = end;
                    },
                    None => {
                        return Err(ExtractError::CoordinateOverflow);
                    },
                }
            },
            OperationKind::Insertion
            | OperationKind::SoftClip
            | OperationKind::HardClip
            | OperationKind::Other => {},
        }
        i = i + 1;
    }
    proof {
        assert(ops@.take(ops.len() as int) =~= ops@);
        lemma_representable(start as int, ops@);
    }
    if exon_start == u32::MAX {
        return Err(ExtractError::CoordinateOverflow);
    }
    let last = ExonBlock { start: exon_start + 1, end: exon_end };
    let ghost earlier = blocks@;
    blocks.push(last);
    proof {
        assert(intervals(blocks@) =~= intervals(earlier).push(last@));
    }
    Ok(blocks)
}

} // verus!
