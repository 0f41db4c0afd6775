//! General facts about the block decomposition, proved of its model.

use vstd::prelude::*;
use crate::blocks::{
    block_origin, closed_blocks, cursor_end, exon_blocks, lemma_walk_bounds, open_block, Interval,
};
use crate::cigar::{reference_span, total_length, CigarOp, OperationKind};
use crate::error::ExtractError;
use crate::extract::{extraction, initial_state, outcomes, state_after, ExtractorState};
use crate::record::{AlignmentRecord, FilterPolicy, Transcript};

verus! {

/// Every operation of the list is a `Match`.
pub open spec fn all_match(ops: Seq<CigarOp>) -> bool {
    forall|i: int| 0 <= i < ops.len() ==> (#[trigger] ops[i]).kind is Match
}

/// No operation of the list is a `ReferenceSkip`.
pub open spec fn gap_free(ops: Seq<CigarOp>) -> bool {
    forall|i: int| 0 <= i < ops.len() ==> !((#[trigger] ops[i]).kind is ReferenceSkip)
}

/// The operation leaves the cursor where it is: it neither lengthens a block
/// nor jumps over a gap.
pub open spec fn neutral(op: CigarOp) -> bool {
    !op.kind.advances_reference()
}

/// A list of `Match` operations moves over as many reference bases as it is long.
pub proof fn lemma_all_match_span(ops: Seq<CigarOp>)
    requires
        all_match(ops),
    ensures
        reference_span(ops) == total_length(ops),
        gap_free(ops),
    decreases ops.len(),
{
    if ops.len() > 0 {
        lemma_all_match_span(ops.drop_last());
    }
}

/// The reference span of a concatenation is the sum of the spans.
pub proof fn lemma_reference_span_concat(a: Seq<CigarOp>, b: Seq<CigarOp>)
    ensures
        reference_span(a + b) == reference_span(a) + reference_span(b),
    decreases b.len(),
{
    if b.len() == 0 {
        assert(a + b =~= a);
    } else {
        assert((a + b).drop_last() =~= a + b.drop_last());
        lemma_reference_span_concat(a, b.drop_last());
    }
}

/// Operations without a gap, added at the end, close no block and leave the
/// open block's origin where it was.
pub proof fn lemma_append_gap_free(start: int, a: Seq<CigarOp>, b: Seq<CigarOp>)
    requires
        gap_free(b),
    ensures
        block_origin(start, a + b) == block_origin(start, a),
        closed_blocks(start, a + b) == closed_blocks(start, a),
        cursor_end(start, a + b) == cursor_end(start, a) + reference_span(b),
    decreases b.len(),
{
    lemma_reference_span_concat(a, b);
    if b.len() == 0 {
        assert(a + b =~= a);
    } else {
        assert((a + b).drop_last() =~= a + b.drop_last());
        assert((a + b).last() == b.last());
        lemma_append_gap_free(start, a, b.drop_last());
    }
}

/// An alignment made of `Match` operations alone yields exactly one block,
/// from the base behind its start over the total length of the operations.
pub proof fn theorem_all_match_single_block(start: int, ops: Seq<CigarOp>)
    requires
        all_match(ops),
    ensures
        exon_blocks(start, ops) == seq![
            Interval { start: start + 1, end: start + total_length(ops) },
        ],
{
    lemma_all_match_span(ops);
    let none = Seq::<CigarOp>::empty();
    assert(none + ops =~= ops);
    lemma_append_gap_free(start, none, ops);
    assert(exon_blocks(start, ops) =~= seq![
        Interval { start: start + 1, end: start + total_length(ops) },
    ]);
}

/// A gap of length `gap` between two runs of `Match` operations, the first of
/// them covering at least one base, yields two blocks: the first run's bases,
/// and the second run's bases moved behind the gap.
pub proof fn theorem_gap_splits_two_blocks(
    start: int,
    first: Seq<CigarOp>,
    gap: u32,
    second: Seq<CigarOp>,
)
    requires
        all_match(first),
        all_match(second),
        total_length(first) > 0,
    ensures
        exon_blocks(
            start,
            first.push(CigarOp { kind: OperationKind::ReferenceSkip, len: gap }) + second,
        ) == seq![
            Interval { start: start + 1, end: start + total_length(first) },
            Interval {
                start: start + total_length(first) + gap + 1,
                end: start + total_length(first) + gap + total_length(second),
            },
        ],
{
    let skip = CigarOp { kind: OperationKind::ReferenceSkip, len: gap };
    let head = first.push(skip);
    lemma_all_match_span(first);
    lemma_all_match_span(second);
    theorem_all_match_single_block(start, first);
    let none = Seq::<CigarOp>::empty();
    assert(none + first =~= first);
    lemma_append_gap_free(start, none, first);
    assert(head.drop_last() =~= first);
    assert(head.last() == skip);
    assert(closed_blocks(start, head) =~= seq![open_block(start, first)]);
    assert(block_origin(start, head) == start + total_length(first) + gap);
    lemma_append_gap_free(start, head, second);
    assert(exon_blocks(start, head + second) =~= seq![
        Interval { start: start + 1, end: start + total_length(first) },
        Interval {
            start: start + total_length(first) + gap + 1,
            end: start + total_length(first) + gap + total_length(second),
        },
    ]);
}

/// Putting an operation that leaves the cursor where it is anywhere into an
/// operation list changes neither the cursor nor any block.
pub proof fn theorem_neutral_operation_changes_no_block(
    start: int,
    ops: Seq<CigarOp>,
    at: int,
    op: CigarOp,
)
    requires
        0 <= at <= ops.len(),
        neutral(op),
    ensures
        reference_span(ops.insert(at, op)) == reference_span(ops),
        block_origin(start, ops.insert(at, op)) == block_origin(start, ops),
        closed_blocks(start, ops.insert(at, op)) == closed_blocks(start, ops),
        exon_blocks(start, ops.insert(at, op)) == exon_blocks(start, ops),
    decreases ops.len(),
{
    let longer = ops.insert(at, op);
    if at == ops.len() {
        assert(longer.drop_last() =~= ops);
        assert(longer.last() == op);
    } else {
        assert(longer.drop_last() =~= ops.drop_last().insert(at, op));
        assert(longer.last() == ops.last());
        theorem_neutral_operation_changes_no_block(start, ops.drop_last(), at, op);
    }
}

/// An `Insertion` or a `HardClip`, put anywhere into an operation list,
/// changes no coordinate of any exon block.
pub proof fn theorem_insertion_and_hard_clip_change_no_block(
    start: int,
    ops: Seq<CigarOp>,
    at: int,
    op: CigarOp,
)
    requires
        0 <= at <= ops.len(),
        op.kind is Insertion || op.kind is HardClip,
    ensures
        exon_blocks(start, ops.insert(at, op)) == exon_blocks(start, ops),
{
    theorem_neutral_operation_changes_no_block(start, ops, at, op);
}

/// An alignment that ends on a gap ends with a block that covers no base:
/// the block begins one base behind its own end, behind the gap.
pub proof fn theorem_trailing_gap_leaves_empty_block(start: int, ops: Seq<CigarOp>)
    requires
        ops.len() > 0,
        ops.last().kind is ReferenceSkip,
    ensures
        exon_blocks(start, ops).last() == (Interval {
            start: start + reference_span(ops) + 1,
            end: start + reference_span(ops),
        }),
{
}

/// The blocks closed by gaps lie strictly one behind the other.
pub proof fn lemma_closed_blocks_ascending(start: int, ops: Seq<CigarOp>)
    ensures
        forall|i: int, j: int|
            0 <= i < j < closed_blocks(start, ops).len() ==> (#[trigger] closed_blocks(
                start,
                ops,
            )[i]).end < (#[trigger] closed_blocks(start, ops)[j]).start,
    decreases ops.len(),
{
    if ops.len() > 0 {
        let before = ops.drop_last();
        lemma_closed_blocks_ascending(start, before);
        lemma_walk_bounds(start, before);
        let closed = closed_blocks(start, ops);
        assert forall|i: int, j: int| 0 <= i < j < closed.len() implies (#[trigger] closed[i]).end
            < (#[trigger] closed[j]).start by {
            let earlier = closed_blocks(start, before);
            assert(closed[i] == earlier[i]);
            if j < earlier.len() {
                assert(closed[j] == earlier[j]);
            }
        }
    }
}

/// The exon blocks of an alignment are never empty as a list and come in
/// ascending order without overlap. Every block but the last covers at least
/// one base; the last may cover none, and has `start == end + 1` in that case.
/// No block begins before the base behind the alignment's start.
pub proof fn theorem_blocks_ascending(start: int, ops: Seq<CigarOp>)
    ensures
        exon_blocks(start, ops).len() >= 1,
        forall|i: int, j: int|
            0 <= i < j < exon_blocks(start, ops).len() ==> (#[trigger] exon_blocks(
                start,
                ops,
            )[i]).end < (#[trigger] exon_blocks(start, ops)[j]).start,
        forall|i: int|
            0 <= i < exon_blocks(start, ops).len() - 1 ==> (#[trigger] exon_blocks(
                start,
                ops,
            )[i]).start <= exon_blocks(start, ops)[i].end,
        forall|i: int|
            0 <= i < exon_blocks(start, ops).len() ==> start < (#[trigger] exon_blocks(
                start,
                ops,
            )[i]).start <= exon_blocks(start, ops)[i].end + 1,
{
    lemma_walk_bounds(start, ops);
    lemma_closed_blocks_ascending(start, ops);
    let closed = closed_blocks(start, ops);
    let blocks = exon_blocks(start, ops);
    assert(blocks[closed.len() as int] == open_block(start, ops));
    assert forall|i: int| 0 <= i < closed.len() implies #[trigger] blocks[i] == closed[i] by {}
    assert forall|i: int, j: int| 0 <= i < j < blocks.len() implies (#[trigger] blocks[i]).end < (
    #[trigger] blocks[j]).start by {
        assert(blocks[i] == closed[i]);
        if j < closed.len() {
            assert(blocks[j] == closed[j]);
        }
    }
    assert forall|i: int| 0 <= i < blocks.len() - 1 implies (#[trigger] blocks[i]).start
        <= blocks[i].end by {
        assert(blocks[i] == closed[i]);
    }
    assert forall|i: int| 0 <= i < blocks.len() implies start < (#[trigger] blocks[i]).start
        <= blocks[i].end + 1 by {
        if i < closed.len() {
            assert(blocks[i] == closed[i]);
        }
    }
}

/// An unmapped record never yields a transcript, whatever its operations.
pub proof fn theorem_unmapped_is_dropped(record: AlignmentRecord, policy: FilterPolicy, ordinal: nat)
    requires
        record.is_unmapped,
    ensures
        extraction(record, policy, ordinal) == Ok::<Option<Transcript>, ExtractError>(None),
{
}

/// A secondary alignment is dropped where the policy does not keep
/// multimappers. Where the policy keeps them, it is treated exactly as the
/// same record would be if it were a primary alignment.
pub proof fn theorem_secondary_follows_policy(
    record: AlignmentRecord,
    policy: FilterPolicy,
    ordinal: nat,
)
    requires
        record.is_secondary_alignment,
    ensures
        extraction(record, FilterPolicy { keep_multimappers: false, ..policy }, ordinal) == Ok::<
            Option<Transcript>,
            ExtractError,
        >(None),
        extraction(record, FilterPolicy { keep_multimappers: true, ..policy }, ordinal)
            == extraction(
            AlignmentRecord { is_secondary_alignment: false, ..record },
            policy,
            ordinal,
        ),
{
}

/// A transcript that is emitted is well formed: it has at least one exon
/// block, spans from the start of its first block to the end of its last,
/// and its blocks ascend without overlap. It carries the ordinal it was
/// extracted under and the exon blocks of its record.
pub proof fn theorem_emitted_transcript_is_well_formed(
    record: AlignmentRecord,
    policy: FilterPolicy,
    ordinal: nat,
)
    ensures
        extraction(record, policy, ordinal) matches Ok(Some(t)) ==> {
            &&& t.well_formed()
            &&& t.ordinal == ordinal
            &&& t.exons == exon_blocks(record.start_position as int, record.operations@)
        },
{
    theorem_blocks_ascending(record.start_position as int, record.operations@);
}

/// A run counts every record it is given.
pub proof fn lemma_state_after(state: ExtractorState, records: Seq<AlignmentRecord>)
    ensures
        state_after(state, records).policy == state.policy,
        state_after(state, records).seen == state.seen + records.len(),
        outcomes(state, records).len() == records.len(),
    decreases records.len(),
{
    if records.len() > 0 {
        lemma_state_after(state, records.drop_last());
    }
}

/// In a run from the initial state, the record at the 1-based position `n`
/// is extracted under the ordinal `n`, however many records before it were
/// dropped: a transcript that is emitted for it has the ordinal `n`.
pub proof fn theorem_ordinal_is_input_position(
    policy: FilterPolicy,
    records: Seq<AlignmentRecord>,
    n: nat,
)
    requires
        1 <= n <= records.len(),
    ensures
        outcomes(initial_state(policy), records).len() == records.len(),
        outcomes(initial_state(policy), records)[n - 1] == extraction(records[n - 1], policy, n),
        outcomes(initial_state(policy), records)[n - 1] matches Ok(Some(t)) ==> t.ordinal == n,
    decreases records.len(),
{
    let state = initial_state(policy);
    let before = records.drop_last();
    lemma_state_after(state, before);
    lemma_state_after(state, records);
    if n < records.len() {
        theorem_ordinal_is_input_position(policy, before, n);
        assert(outcomes(state, records)[n - 1] == outcomes(state, before)[n - 1]);
        assert(before[n - 1] == records[n - 1]);
    }
}

} // verus!
