//! The records that go into the extractor and come out of it.

use vstd::prelude::*;
use crate::blocks::{intervals, ExonBlock, Interval};
use crate::cigar::CigarOp;

verus! {

/// The strand of the reference that a read aligns to.
#[derive(Clone, Copy, Debug, PartialEq, Eq)]
pub enum Strand {
    Forward,
    Reverse,
}

impl Strand {
    /// The strand that a read's reverse-strand flag stands for.
    pub open spec fn of_reverse_flag(is_reverse: bool) -> Strand {
        if is_reverse {
            Strand::Reverse
        } else {
            Strand::Forward
        }
    }

    /// The strand that a read's reverse-strand flag stands for.
    pub fn from_reverse_flag(is_reverse: bool) -> (strand: Strand)
        ensures
            strand == Strand::of_reverse_flag(is_reverse),
    {
        if is_reverse {
            Strand::Reverse
        } else {
            Strand::Forward
        }
    }
}

/// Which alignments are kept.
#[derive(Clone, Copy, Debug, PartialEq, Eq)]
pub struct FilterPolicy {
    /// Keep secondary alignments, that is further placements of a read that
    /// maps to several locations.
    pub keep_multimappers: bool,
    /// The least share of a read's bases, in percent, that must be aligned
    /// for the read to be kept.
    pub minimum_alignment_percent: u8,
}

/// One decoded alignment of a read.
#[derive(Clone, Debug, PartialEq, Eq)]
pub struct AlignmentRecord {
    /// Name of the read.
    pub read_name: String,
    /// Index of the reference sequence in the table of reference names.
    pub reference_index: i32,
    /// 0-based coordinate of the leftmost aligned base.
    pub start_position: u32,
    pub is_unmapped: bool,
    pub is_secondary_alignment: bool,
    pub is_reverse_strand: bool,
    /// How the read aligns to the reference, in the order of the read.
    pub operations: Vec<CigarOp>,
    /// Length of the read's sequence.
    pub read_length: usize,
}

/// What a transcript record stands for.
pub struct Transcript {
    pub reference_index: int,
    pub start: int,
    pub end: int,
    pub strand: Strand,
    pub ordinal: nat,
    pub read_name: Seq<char>,
    pub exons: Seq<Interval>,
    pub unknown_operations: nat,
}

impl Transcript {
    /// The transcript has at least one exon block, begins where its first
    /// block begins and ends where its last block ends. Its blocks come in
    /// ascending order without overlap, and each of them but the last covers
    /// at least one base; the last may cover none, with `start == end + 1`.
    pub open spec fn well_formed(self) -> bool {
        &&& self.exons.len() >= 1
        &&& self.start == self.exons.first().start
        &&& self.end == self.exons.last().end
        &&& forall|i: int, j: int|
            #![trigger self.exons[i], self.exons[j]]
            0 <= i < j < self.exons.len() ==> self.exons[i].end < self.exons[j].start
        &&& forall|i: int|
            0 <= i < self.exons.len() - 1 ==> (#[trigger] self.exons[i]).start
                <= self.exons[i].end
        &&& self.exons.last().start <= self.exons.last().end + 1
    }
}

/// The transcript that one kept alignment gives rise to.
#[derive(Clone, Debug, PartialEq, Eq)]
pub struct TranscriptRecord {
    /// Index of the reference sequence in the table of reference names.
    pub reference_index: i32,
    /// Start of the first exon block.
    pub start: u32,
    /// End of the last exon block.
    pub end: u32,
    pub strand: Strand,
    /// 1-based position of the read in the input, skipped reads counted.
    pub ordinal: u64,
    /// Name of the read.
    pub read_name: String,
    /// The exon blocks in ascending order, at least one.
    pub exons: Vec<ExonBlock>,
    /// Number of operations of the read whose kind was not recognised. Each
    /// of them calls for a diagnostic that names the read.
    pub unknown_operations: usize,
}

impl View for TranscriptRecord {
    type V = Transcript;

    open spec fn view(&self) -> Transcript {
        Transcript {
            reference_index: self.reference_index as int,
            start: self.start as int,
            end: self.end as int,
            strand: self.strand,
            ordinal: self.ordinal as nat,
            read_name: self.read_name@,
            exons: intervals(self.exons@),
            unknown_operations: self.unknown_operations as nat,
        }
    }
}

} // verus!
