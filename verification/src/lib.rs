//! Conversion of aligned sequencing reads into GTF transcript and exon records.
//!
//! A read's alignment is a start coordinate on the reference together with a
//! list of alignment operations. The library splits such an alignment into
//! exon blocks at intron-like gaps, applies the filtering policy and renders
//! the surviving transcripts as GTF lines. Every function is verified against
//! a mathematical model of its result.

pub mod blocks;
pub mod cigar;
pub mod error;
pub mod extract;
pub mod gtf;
pub mod record;
pub mod theorems;
