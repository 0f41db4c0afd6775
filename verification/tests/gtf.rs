use sam2gtf::blocks::ExonBlock;
use sam2gtf::cigar::{CigarOp, OperationKind};
use sam2gtf::extract::extract;
use sam2gtf::gtf::{append_decimal, format_line, render, unknown_operation_diagnostic, Feature};
use sam2gtf::record::{AlignmentRecord, FilterPolicy, Strand, TranscriptRecord};

fn decimal(n: u64) -> String {
    let mut text = String::new();
    append_decimal(&mut text, n);
    text
}

#[test]
fn decimal_notation_has_no_leading_zeros() {
    assert_eq!(decimal(0), "0");
    assert_eq!(decimal(7), "7");
    assert_eq!(decimal(10), "10");
    assert_eq!(decimal(1050), "1050");
    assert_eq!(decimal(1234567890), "1234567890");
    assert_eq!(decimal(4294967295), "4294967295");
    assert_eq!(decimal(u64::MAX), "18446744073709551615");
}

#[test]
fn decimal_is_appended_behind_what_is_there() {
    let mut text = String::from("id=");
    append_decimal(&mut text, 42);
    append_decimal(&mut text, 0);
    assert_eq!(text, "id=420");
}

#[test]
fn transcript_line_has_nine_tab_separated_columns() {
    let line = format_line("chr1", Feature::Transcript, 1001, 1280, Strand::Forward, 3, "read/1");
    assert_eq!(
        line,
        "chr1\tSAM2GTF\ttranscript\t1001\t1280\t.\t+\t.\ttranscript_id \"3\"; read_name \"read/1\";\n"
    );
    assert_eq!(line.trim_end_matches('\n').split('\t').count(), 9);
}

#[test]
fn exon_line_on_the_reverse_strand() {
    let line = format_line("scaffold_12", Feature::Exon, 1, 4294967295, Strand::Reverse, 18446744073709551615, "");
    assert_eq!(
        line,
        "scaffold_12\tSAM2GTF\texon\t1\t4294967295\t.\t-\t.\ttranscript_id \"18446744073709551615\"; read_name \"\";\n"
    );
}

#[test]
fn names_are_copied_as_they_are() {
    let line = format_line("", Feature::Exon, 0, 0, Strand::Forward, 0, "m64/1\u{fffd}/ccs \"x\"");
    assert_eq!(
        line,
        "\tSAM2GTF\texon\t0\t0\t.\t+\t.\ttranscript_id \"0\"; read_name \"m64/1\u{fffd}/ccs \"x\"\";\n"
    );
}

#[test]
fn round_trip_of_a_spliced_forward_read() {
    let record = AlignmentRecord {
        read_name: String::from("movie/42/ccs"),
        reference_index: 0,
        start_position: 1000,
        is_unmapped: false,
        is_secondary_alignment: false,
        is_reverse_strand: false,
        operations: vec![
            CigarOp { kind: OperationKind::Match, len: 50 },
            CigarOp { kind: OperationKind::ReferenceSkip, len: 200 },
            CigarOp { kind: OperationKind::Match, len: 30 },
        ],
        read_length: 80,
    };
    let policy = FilterPolicy { keep_multimappers: false, minimum_alignment_percent: 80 };
    let transcript = extract(&record, &policy, 1).unwrap().unwrap();
    assert_eq!((transcript.start, transcript.end), (1001, 1280));
    assert_eq!(
        transcript.exons,
        vec![ExonBlock { start: 1001, end: 1050 }, ExonBlock { start: 1251, end: 1280 }]
    );
    assert_eq!(
        render(&transcript, "chr7"),
        "chr7\tSAM2GTF\ttranscript\t1001\t1280\t.\t+\t.\ttranscript_id \"1\"; read_name \"movie/42/ccs\";\n\
         chr7\tSAM2GTF\texon\t1001\t1050\t.\t+\t.\ttranscript_id \"1\"; read_name \"movie/42/ccs\";\n\
         chr7\tSAM2GTF\texon\t1251\t1280\t.\t+\t.\ttranscript_id \"1\"; read_name \"movie/42/ccs\";\n"
    );
}

#[test]
fn rendering_writes_the_transcript_line_then_each_exon_in_order() {
    let transcript = TranscriptRecord {
        reference_index: 5,
        start: 11,
        end: 45,
        strand: Strand::Reverse,
        ordinal: 12,
        read_name: String::from("r"),
        exons: vec![
            ExonBlock { start: 11, end: 15 },
            ExonBlock { start: 26, end: 30 },
            ExonBlock { start: 41, end: 45 },
        ],
        unknown_operations: 0,
    };
    let text = render(&transcript, "chrM");
    let expected = [
        format_line("chrM", Feature::Transcript, 11, 45, Strand::Reverse, 12, "r"),
        format_line("chrM", Feature::Exon, 11, 15, Strand::Reverse, 12, "r"),
        format_line("chrM", Feature::Exon, 26, 30, Strand::Reverse, 12, "r"),
        format_line("chrM", Feature::Exon, 41, 45, Strand::Reverse, 12, "r"),
    ]
    .concat();
    assert_eq!(text, expected);
    assert_eq!(text.lines().count(), 4);
    assert!(text.ends_with(";\n"));
}

#[test]
fn empty_trailing_exon_is_written_as_it_is() {
    let transcript = TranscriptRecord {
        reference_index: 0,
        start: 101,
        end: 115,
        strand: Strand::Forward,
        ordinal: 9,
        read_name: String::from("q"),
        exons: vec![ExonBlock { start: 101, end: 110 }, ExonBlock { start: 116, end: 115 }],
        unknown_operations: 0,
    };
    assert_eq!(
        render(&transcript, "2L"),
        "2L\tSAM2GTF\ttranscript\t101\t115\t.\t+\t.\ttranscript_id \"9\"; read_name \"q\";\n\
         2L\tSAM2GTF\texon\t101\t110\t.\t+\t.\ttranscript_id \"9\"; read_name \"q\";\n\
         2L\tSAM2GTF\texon\t116\t115\t.\t+\t.\ttranscript_id \"9\"; read_name \"q\";\n"
    );
}

#[test]
fn diagnostic_names_the_read() {
    assert_eq!(unknown_operation_diagnostic("read/9"), "Unknown CIGAR operation read/9");
    assert_eq!(unknown_operation_diagnostic(""), "Unknown CIGAR operation ");
}
