//! The exon extractor: filtering policy, then block decomposition.

use vstd::prelude::*;
use crate::blocks::{decompose, exon_blocks, representable};
use crate::cigar::{
    aligned_bases, count_aligned_bases, count_unknown_operations, lemma_aligned_bases_bound,
    unknown_operations, CigarOp,
};
use crate::error::ExtractError;
use crate::record::{AlignmentRecord, FilterPolicy, Strand, Transcript, TranscriptRecord};
use crate::theorems::theorem_emitted_transcript_is_well_formed;

verus! {

/// `aligned` bases out of `read_length` are at least `percent` percent of the
/// read. The two fractions are compared without division, so a read of length
/// zero reaches every percentage.
pub open spec fn reaches_percent(aligned: nat, read_length: nat, percent: nat) -> bool {
    aligned * 100 >= percent * read_length
}

/// The record passes the filters, which apply in this order: an unmapped read
/// is dropped; a secondary alignment is dropped unless the policy keeps
/// multimappers; a read whose aligned fraction is below the policy's minimum
/// is dropped.
pub open spec fn passes_filters(record: AlignmentRecord, policy: FilterPolicy) -> bool {
    &&& !record.is_unmapped
    &&& (record.is_secondary_alignment ==> policy.keep_multimappers)
    &&& reaches_percent(
        aligned_bases(record.operations@),
        record.read_length as nat,
        policy.minimum_alignment_percent as nat,
    )
}

/// The transcript of a record whose blocks are representable.
pub open spec fn transcript_of(record: AlignmentRecord, ordinal: nat) -> Transcript {
    let blocks = exon_blocks(record.start_position as int, record.operations@);
    Transcript {
        reference_index: record.reference_index as int,
        start: blocks.first().start,
        end: blocks.last().end,
        strand: Strand::of_reverse_flag(record.is_reverse_strand),
        ordinal: ordinal,
        read_name: record.read_name@,
        exons: blocks,
        unknown_operations: unknown_operations(record.operations@),
    }
}

/// What the extractor makes of one record that is the `ordinal`-th of the
/// input: nothing where a filter drops it, an error where a block coordinate
/// does not fit, else its transcript.
pub open spec fn extraction(record: AlignmentRecord, policy: FilterPolicy, ordinal: nat) -> Result<
    Option<Transcript>,
    ExtractError,
> {
    if !passes_filters(record, policy) {
        Ok(None)
    } else if !representable(exon_blocks(record.start_position as int, record.operations@)) {
        Err(ExtractError::CoordinateOverflow)
    } else {
        Ok(Some(transcript_of(record, ordinal)))
    }
}

/// What an extractor's result stands for.
pub open spec fn outcome(result: Result<Option<TranscriptRecord>, ExtractError>) -> Result<
    Option<Transcript>,
    ExtractError,
> {
    match result {
        Ok(Some(t)) => Ok(Some(t@)),
        Ok(None) => Ok(None),
        Err(e) => Err(e),
    }
}

/// Tells whether the aligned bases of the operations make up at least
/// `minimum_percent` percent of a read of length `read_length`.
pub fn sufficiently_aligned(ops: &[CigarOp], read_length: usize, minimum_percent: u8) -> (enough:
    bool)
    ensures
        enough == reaches_percent(aligned_bases(ops@), read_length as nat, minimum_percent as nat),
{
    let aligned: u128 = count_aligned_bases(ops);
    let count: usize = ops.len();
    proof {
        lemma_aligned_bases_bound(ops@);
        assert(count * u32::MAX <= usize::MAX * u32::MAX) by (nonlinear_arith)
            requires
                count <= usize::MAX,
        ;
        assert(minimum_percent * read_length <= 255 * usize::MAX) by (nonlinear_arith)
            requires
                minimum_percent <= 255,
                read_length <= usize::MAX,
        ;
    }
    aligned * 100 >= minimum_percent as u128 * read_length as u128
}

/// Tells whether a record passes the filters of a policy.
pub fn is_kept(record: &AlignmentRecord, policy: &FilterPolicy) -> (kept: bool)
    ensures
        kept == passes_filters(*record, *policy),
{
    if record.is_unmapped {
        return false;
    }
    if record.is_secondary_alignment && !policy.keep_multimappers {
        return false;
    }
    sufficiently_aligned(
        record.operations.as_slice(),
        record.read_length,
        policy.minimum_alignment_percent,
    )
}

/// Turns one alignment record, the `ordinal`-th of the input, into its
/// transcript.
///
/// Returns `Ok(None)` exactly when a filter drops the record, an error
/// exactly when the record is kept and a block coordinate does not fit, and
/// the transcript otherwise. The transcript spans from the start of its first
/// block to the end of its last.
pub fn extract(record: &AlignmentRecord, policy: &FilterPolicy, ordinal: u64) -> (result: Result<
    Option<TranscriptRecord>,
    ExtractError,
>)
    ensures
        outcome(result) == extraction(*record, *policy, ordinal as nat),
        result matches Ok(Some(t)) ==> t@.well_formed(),
{
    proof {
        theorem_emitted_transcript_is_well_formed(*record, *policy, ordinal as nat);
    }
    if !is_kept(record, policy) {
        return Ok(None);
    }
    let exons = match decompose(record.start_position, record.operations.as_slice()) {
        Ok(blocks) => blocks,
        Err(e) => {
            return Err(e);
        },
    };
    let unknown = count_unknown_operations(record.operations.as_slice());
    let first = exons[0];
    let last = exons[exons.len() - 1];
    let transcript = TranscriptRecord {
        reference_index: record.reference_index,
        start: first.start,
        end: last.end,
        strand: Strand::from_reverse_flag(record.is_reverse_strand),
        ordinal,
        read_name: record.read_name.clone(),
        exons,
        unknown_operations: unknown,
    };
    Ok(Some(transcript))
}

/// What an extractor remembers between records.
pub struct ExtractorState {
    pub policy: FilterPolicy,
    /// Number of records handed to the extractor so far, skipped ones counted.
    pub seen: nat,
}

/// The state of an extractor that has not seen any record.
pub open spec fn initial_state(policy: FilterPolicy) -> ExtractorState {
    ExtractorState { policy, seen: 0 }
}

/// One step of the extractor: the record is counted, whatever becomes of it,
/// and its position in the input is the ordinal of its transcript.
pub open spec fn step(state: ExtractorState, record: AlignmentRecord) -> (
    ExtractorState,
    Result<Option<Transcript>, ExtractError>,
) {
    (
        ExtractorState { policy: state.policy, seen: state.seen + 1 },
        extraction(record, state.policy, state.seen + 1),
    )
}

/// The state after a run over `records`.
pub open spec fn state_after(state: ExtractorState, records: Seq<AlignmentRecord>) -> ExtractorState
    decreases records.len(),
{
    if records.len() == 0 {
        state
    } else {
        step(state_after(state, records.drop_last()), records.last()).0
    }
}

/// What a run over `records` makes of each of them, in the order of the input.
pub open spec fn outcomes(state: ExtractorState, records: Seq<AlignmentRecord>) -> Seq<
    Result<Option<Transcript>, ExtractError>,
>
    decreases records.len(),
{
    if records.len() == 0 {
        Seq::empty()
    } else {
        outcomes(state, records.drop_last()).push(
            step(state_after(state, records.drop_last()), records.last()).1,
        )
    }
}

/// The extractor for a stream of records. It numbers the records in the
/// order in which it is given them.
pub struct Extractor {
    policy: FilterPolicy,
    seen: u64,
}

impl View for Extractor {
    type V = ExtractorState;

    closed spec fn view(&self) -> ExtractorState {
        ExtractorState { policy: self.policy, seen: self.seen as nat }
    }
}

impl Extractor {
    /// An extractor that has not seen any record.
    pub fn new(policy: FilterPolicy) -> (extractor: Extractor)
        ensures
            extractor@ == initial_state(policy),
    {
        Extractor { policy, seen: 0 }
    }

    /// The filtering policy.
    pub fn policy(&self) -> (policy: FilterPolicy)
        ensures
            policy == self@.policy,
    {
        self.policy
    }

    /// Number of records processed so far, skipped ones counted.
    pub fn records_seen(&self) -> (seen: u64)
        ensures
            seen == self@.seen,
    {
        self.seen
    }

    /// Counts the record and extracts its transcript, whose ordinal is the
    /// record's 1-based position in the input.
    ///
    /// The counter must have room for the record.
    pub fn process(&mut self, record: &AlignmentRecord) -> (result: Result<
        Option<TranscriptRecord>,
        ExtractError,
    >)
        requires
            old(self)@.seen < u64::MAX,
        ensures
            (final(self)@, outcome(result)) == step(old(self)@, *record),
            result matches Ok(Some(t)) ==> t@.well_formed(),
    {
        self.seen = self.seen + 1;
        extract(record, &self.policy, self.seen)
    }
}

} // verus!
