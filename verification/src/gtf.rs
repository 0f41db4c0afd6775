//! Rendering of transcripts as GTF lines.
//!
//! A line has nine tab-separated columns: the reference name, the source
//! `SAM2GTF`, the feature, the 1-based start and end with both ends counted, a
//! dot for the score, the strand, a dot for the frame, and the attributes
//! `transcript_id` and `read_name`. A transcript is written as its
//! `transcript` line followed by one `exon` line for each of its blocks.

use vstd::prelude::*;
use crate::record::{Strand, Transcript, TranscriptRecord};

verus! {

/// The feature that a line describes.
#[derive(Clone, Copy, Debug, PartialEq, Eq)]
pub enum Feature {
    Transcript,
    Exon,
}

/// The feature's name in the third column.
pub open spec fn feature_name(feature: Feature) -> Seq<char> {
    match feature {
        Feature::Transcript => "transcript"@,
        Feature::Exon => "exon"@,
    }
}

/// The strand's sign in the seventh column.
pub open spec fn strand_sign(strand: Strand) -> Seq<char> {
    match strand {
        Strand::Forward => "+"@,
        Strand::Reverse => "-"@,
    }
}

/// The decimal digit for a number below ten.
pub open spec fn digit(d: nat) -> char {
    if d == 0 {
        '0'
    } else if d == 1 {
        '1'
    } else if d == 2 {
        '2'
    } else if d == 3 {
        '3'
    } else if d == 4 {
        '4'
    } else if d == 5 {
        '5'
    } else if d == 6 {
        '6'
    } else if d == 7 {
        '7'
    } else if d == 8 {
        '8'
    } else {
        '9'
    }
}

/// A number in decimal notation, without leading zeros.
pub open spec fn decimal(n: nat) -> Seq<char>
    decreases n,
{
    if n < 10 {
        seq![digit(n)]
    } else {
        decimal(n / 10).push(digit(n % 10))
    }
}

/// One line of GTF, newline at its end.
pub open spec fn gtf_line(
    reference_name: Seq<char>,
    feature: Feature,
    start: nat,
    end: nat,
    strand: Strand,
    ordinal: nat,
    read_name: Seq<char>,
) -> Seq<char> {
    reference_name + "\tSAM2GTF\t"@ + feature_name(feature) + "\t"@ + decimal(start) + "\t"@
        + decimal(end) + "\t.\t"@ + strand_sign(strand) + "\t.\ttranscript_id \""@ + decimal(
        ordinal,
    ) + "\"; read_name \""@ + read_name + "\";\n"@
}

/// The `transcript` line of a transcript.
pub open spec fn transcript_line(transcript: Transcript, reference_name: Seq<char>) -> Seq<char> {
    gtf_line(
        reference_name,
        Feature::Transcript,
        transcript.start as nat,
        transcript.end as nat,
        transcript.strand,
        transcript.ordinal,
        transcript.read_name,
    )
}

/// The `exon` line of the block at `index`.
pub open spec fn exon_line(transcript: Transcript, reference_name: Seq<char>, index: int) -> Seq<
    char,
> {
    gtf_line(
        reference_name,
        Feature::Exon,
        transcript.exons[index].start as nat,
        transcript.exons[index].end as nat,
        transcript.strand,
        transcript.ordinal,
        transcript.read_name,
    )
}

/// The `exon` lines of the first `count` blocks, one behind the other.
pub open spec fn exon_lines(transcript: Transcript, reference_name: Seq<char>, count: nat) -> Seq<
    char,
>
    decreases count,
{
    if count == 0 {
        Seq::empty()
    } else {
        exon_lines(transcript, reference_name, (count - 1) as nat) + exon_line(
            transcript,
            reference_name,
            count - 1,
        )
    }
}

/// A transcript in GTF: its `transcript` line, then the `exon` lines of all
/// its blocks in their order.
pub open spec fn gtf_record(transcript: Transcript, reference_name: Seq<char>) -> Seq<char> {
    transcript_line(transcript, reference_name) + exon_lines(
        transcript,
        reference_name,
        transcript.exons.len(),
    )
}

/// The diagnostic for one unrecognised operation of the read `read_name`.
pub open spec fn unknown_operation_message(read_name: Seq<char>) -> Seq<char> {
    "Unknown CIGAR operation "@ + read_name
}

fn feature_text(feature: Feature) -> (text: &'static str)
    ensures
        text@ == feature_name(feature),
{
    match feature {
        Feature::Transcript => "transcript",
        Feature::Exon => "exon",
    }
}

fn strand_text(strand: Strand) -> (text: &'static str)
    ensures
        text@ == strand_sign(strand),
{
    match strand {
        Strand::Forward => "+",
        Strand::Reverse => "-",
    }
}

fn digit_text(d: u64) -> (text: &'static str)
    requires
        d < 10,
    ensures
        text@ == seq![digit(d as nat)],
{
    proof {
        reveal_strlit("0");
        reveal_strlit("1");
        reveal_strlit("2");
        reveal_strlit("3");
        reveal_strlit("4");
        reveal_strlit("5");
        reveal_strlit("6");
        reveal_strlit("7");
        reveal_strlit("8");
        reveal_strlit("9");
    }
    let text = if d == 0 {
        "0"
    } else if d == 1 {
        "1"
    } else if d == 2 {
        "2"
    } else if d == 3 {
        "3"
    } else if d == 4 {
        "4"
    } else if d == 5 {
        "5"
    } else if d == 6 {
        "6"
    } else if d == 7 {
        "7"
    } else if d == 8 {
        "8"
    } else {
        "9"
    };
    assert(text@ =~= seq![digit(d as nat)]);
    text
}

/// Appends a number in decimal notation to a text.
pub fn append_decimal(text: &mut String, n: u64)
    ensures
        final(text)@ == old(text)@ + decimal(n as nat),
    decreases n,
{
    if n >= 10 {
        append_decimal(text, n / 10);
    }
    text.append(digit_text(n % 10));
    proof {
        if n >= 10 {
            assert(old(text)@ + decimal(n as nat / 10) + seq![digit(n as nat % 10)] =~= old(text)@
                + decimal(n as nat));
        }
    }
}

/// Renders one line of GTF.
pub fn format_line(
    reference_name: &str,
    feature: Feature,
    start: u32,
    end: u32,
    strand: Strand,
    ordinal: u64,
    read_name: &str,
) -> (line: String)
    ensures
        line@ == gtf_line(
            reference_name@,
            feature,
            start as nat,
            end as nat,
            strand,
            ordinal as nat,
            read_name@,
        ),
{
    let mut line = String::new();
    append_line(&mut line, reference_name, feature, start, end, strand, ordinal, read_name);
    assert(line@ =~= gtf_line(
        reference_name@,
        feature,
        start as nat,
        end as nat,
        strand,
        ordinal as nat,
        read_name@,
    ));
    line
}

fn append_line(
    text: &mut String,
    reference_name: &str,
    feature: Feature,
    start: u32,
    end: u32,
    strand: Strand,
    ordinal: u64,
    read_name: &str,
)
    ensures
        final(text)@ == old(text)@ + gtf_line(
            reference_name@,
            feature,
            start as nat,
            end as nat,
            strand,
            ordinal as nat,
            read_name@,
        ),
{
    text.append(reference_name);
    text.append("\tSAM2GTF\t");
    text.append(feature_text(feature));
    text.append("\t");
    append_decimal(text, start as u64);
    text.append("\t");
    append_decimal(text, end as u64);
    text.append("\t.\t");
    text.append(strand_text(strand));
    text.append("\t.\ttranscript_id \"");
    append_decimal(text, ordinal);
    text.append("\"; read_name \"");
    text.append(read_name);
    text.append("\";\n");
    assert(text@ =~= old(text)@ + gtf_line(
        reference_name@,
        feature,
        start as nat,
        end as nat,
        strand,
        ordinal as nat,
        read_name@,
    ));
}

/// Renders a transcript in GTF: its `transcript` line, then one `exon` line
/// for each of its blocks. `reference_name` is the name that the table of
/// reference names gives for the transcript's reference index.
pub fn render(transcript: &TranscriptRecord, reference_name: &str) -> (text: String)
    ensures
        text@ == gtf_record(transcript@, reference_name@),
{
    let mut text = String::new();
    append_line(
        &mut text,
        reference_name,
        Feature::Transcript,
        transcript.start,
        transcript.end,
        transcript.strand,
        transcript.ordinal,
        transcript.read_name.as_str(),
    );
    let mut i: usize = 0;
    while i < transcript.exons.len()
        invariant
            i <= transcript.exons.len(),
            text@ == transcript_line(transcript@, reference_name@) + exon_lines(
                transcript@,
                reference_name@,
                i as nat,
            ),
        decreases transcript.exons.len() - i,
    {
        let block = transcript.exons[i];
        let ghost before = text@;
        append_line(
            &mut text,
            reference_name,
            Feature::Exon,
            block.start,
            block.end,
            transcript.strand,
            transcript.ordinal,
            transcript.read_name.as_str(),
        );
        proof {
            assert(transcript@.exons[i as int] == block@);
            assert(text@ =~= transcript_line(transcript@, reference_name@) + exon_lines(
                transcript@,
                reference_name@,
                (i + 1) as nat,
            ));
        }
        i = i + 1;
    }
    text
}

/// Renders the diagnostic for one unrecognised operation of a read.
pub fn unknown_operation_diagnostic(read_name: &str) -> (text: String)
    ensures
        text@ == unknown_operation_message(read_name@),
{
    let mut text = String::new();
    text.append("Unknown CIGAR operation ");
    text.append(read_name);
    assert(text@ =~= unknown_operation_message(read_name@));
    text
}

} // verus!
