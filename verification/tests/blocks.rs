use sam2gtf::blocks::{decompose, ExonBlock};
use sam2gtf::cigar::{CigarOp, OperationKind};
use sam2gtf::error::ExtractError;

fn op(kind: OperationKind, len: u32) -> CigarOp {
    CigarOp { kind, len }
}

fn block(start: u32, end: u32) -> ExonBlock {
    ExonBlock { start, end }
}

#[test]
fn single_match_yields_one_block() {
    let ops = vec![op(OperationKind::Match, 100)];
    assert_eq!(decompose(500, &ops), Ok(vec![block(501, 600)]));
}

#[test]
fn several_matches_yield_one_block_over_their_total_length() {
    let ops = vec![
        op(OperationKind::Match, 10),
        op(OperationKind::Match, 25),
        op(OperationKind::Match, 7),
    ];
    assert_eq!(decompose(0, &ops), Ok(vec![block(1, 42)]));
}

#[test]
fn gap_between_two_match_runs_yields_two_blocks() {
    let ops = vec![
        op(OperationKind::Match, 10),
        op(OperationKind::ReferenceSkip, 5),
        op(OperationKind::Match, 20),
    ];
    assert_eq!(decompose(100, &ops), Ok(vec![block(101, 110), block(116, 135)]));
}

#[test]
fn gap_between_runs_of_several_matches() {
    let ops = vec![
        op(OperationKind::Match, 4),
        op(OperationKind::Match, 6),
        op(OperationKind::ReferenceSkip, 5),
        op(OperationKind::Match, 12),
        op(OperationKind::Match, 8),
    ];
    assert_eq!(decompose(100, &ops), Ok(vec![block(101, 110), block(116, 135)]));
}

#[test]
fn fifty_match_two_hundred_skip_thirty_match_at_one_thousand() {
    let ops = vec![
        op(OperationKind::Match, 50),
        op(OperationKind::ReferenceSkip, 200),
        op(OperationKind::Match, 30),
    ];
    assert_eq!(decompose(1000, &ops), Ok(vec![block(1001, 1050), block(1251, 1280)]));
}

#[test]
fn insertion_and_hard_clip_do_not_move_blocks() {
    let plain = vec![
        op(OperationKind::Match, 50),
        op(OperationKind::ReferenceSkip, 200),
        op(OperationKind::Match, 30),
    ];
    let expected = decompose(1000, &plain);
    assert_eq!(expected, Ok(vec![block(1001, 1050), block(1251, 1280)]));
    for at in 0..=plain.len() {
        for kind in [OperationKind::Insertion, OperationKind::HardClip] {
            let mut ops = plain.clone();
            ops.insert(at, op(kind, 17));
            assert_eq!(decompose(1000, &ops), expected);
        }
    }
}

#[test]
fn insertion_inside_a_match_run_keeps_the_block_whole() {
    let ops = vec![
        op(OperationKind::HardClip, 5),
        op(OperationKind::Match, 20),
        op(OperationKind::Insertion, 3),
        op(OperationKind::Match, 30),
        op(OperationKind::HardClip, 9),
    ];
    assert_eq!(decompose(10, &ops), Ok(vec![block(11, 60)]));
}

#[test]
fn soft_clip_neither_splits_nor_shifts() {
    let ops = vec![
        op(OperationKind::SoftClip, 12),
        op(OperationKind::Match, 40),
        op(OperationKind::SoftClip, 8),
    ];
    assert_eq!(decompose(200, &ops), Ok(vec![block(201, 240)]));
}

#[test]
fn deletion_extends_the_block() {
    let ops = vec![
        op(OperationKind::Match, 10),
        op(OperationKind::Deletion, 4),
        op(OperationKind::Match, 10),
    ];
    assert_eq!(decompose(0, &ops), Ok(vec![block(1, 24)]));
}

#[test]
fn sequence_match_and_mismatch_extend_the_block() {
    let ops = vec![
        op(OperationKind::SequenceMatch, 10),
        op(OperationKind::SequenceMismatch, 1),
        op(OperationKind::SequenceMatch, 9),
    ];
    assert_eq!(decompose(30, &ops), Ok(vec![block(31, 50)]));
}

#[test]
fn unknown_operation_does_not_alter_coordinates() {
    let ops = vec![
        op(OperationKind::Match, 10),
        op(OperationKind::Other, 99),
        op(OperationKind::Match, 10),
    ];
    assert_eq!(decompose(0, &ops), Ok(vec![block(1, 20)]));
}

#[test]
fn no_operations_yield_one_empty_block() {
    let ops: Vec<CigarOp> = Vec::new();
    assert_eq!(decompose(41, &ops), Ok(vec![block(42, 41)]));
}

#[test]
fn trailing_gap_leaves_an_empty_last_block() {
    let ops = vec![op(OperationKind::Match, 10), op(OperationKind::ReferenceSkip, 5)];
    assert_eq!(decompose(100, &ops), Ok(vec![block(101, 110), block(116, 115)]));
}

#[test]
fn leading_gap_closes_no_block() {
    let ops = vec![op(OperationKind::ReferenceSkip, 5), op(OperationKind::Match, 10)];
    assert_eq!(decompose(0, &ops), Ok(vec![block(6, 15)]));
}

#[test]
fn consecutive_gaps_close_one_block_only() {
    let ops = vec![
        op(OperationKind::Match, 10),
        op(OperationKind::ReferenceSkip, 5),
        op(OperationKind::ReferenceSkip, 5),
        op(OperationKind::Match, 10),
    ];
    assert_eq!(decompose(0, &ops), Ok(vec![block(1, 10), block(21, 30)]));
}

#[test]
fn zero_length_first_run_yields_a_single_block() {
    let ops = vec![
        op(OperationKind::Match, 0),
        op(OperationKind::ReferenceSkip, 5),
        op(OperationKind::Match, 10),
    ];
    assert_eq!(decompose(0, &ops), Ok(vec![block(6, 15)]));
}

#[test]
fn three_exons_come_in_ascending_order() {
    let ops = vec![
        op(OperationKind::Match, 10),
        op(OperationKind::ReferenceSkip, 100),
        op(OperationKind::Match, 20),
        op(OperationKind::ReferenceSkip, 1000),
        op(OperationKind::Match, 30),
    ];
    let blocks = decompose(5, &ops).unwrap();
    assert_eq!(blocks, vec![block(6, 15), block(116, 135), block(1136, 1165)]);
    for pair in blocks.windows(2) {
        assert!(pair[0].start <= pair[0].end);
        assert!(pair[0].end < pair[1].start);
    }
}

#[test]
fn block_that_ends_on_the_largest_coordinate_fits() {
    let ops = vec![op(OperationKind::Match, 10)];
    assert_eq!(
        decompose(u32::MAX - 10, &ops),
        Ok(vec![block(u32::MAX - 9, u32::MAX)])
    );
}

#[test]
fn block_beyond_the_largest_coordinate_is_an_error() {
    let ops = vec![op(OperationKind::Match, 10)];
    assert_eq!(decompose(u32::MAX - 5, &ops), Err(ExtractError::CoordinateOverflow));
}

#[test]
fn gap_beyond_the_largest_coordinate_is_an_error() {
    let ops = vec![
        op(OperationKind::Match, 10),
        op(OperationKind::ReferenceSkip, u32::MAX),
        op(OperationKind::Match, 10),
    ];
    assert_eq!(decompose(0, &ops), Err(ExtractError::CoordinateOverflow));
}

#[test]
fn empty_block_behind_the_largest_coordinate_is_an_error() {
    let ops: Vec<CigarOp> = Vec::new();
    assert_eq!(decompose(u32::MAX, &ops), Err(ExtractError::CoordinateOverflow));
    let gap = vec![op(OperationKind::Match, 10), op(OperationKind::ReferenceSkip, 5)];
    assert_eq!(decompose(u32::MAX - 15, &gap), Err(ExtractError::CoordinateOverflow));
}

#[test]
fn overflow_is_found_whatever_follows_it() {
    let ops = vec![
        op(OperationKind::Match, u32::MAX),
        op(OperationKind::Match, 1),
        op(OperationKind::Insertion, 1),
    ];
    assert_eq!(decompose(0, &ops), Err(ExtractError::CoordinateOverflow));
}

#[test]
fn error_message_names_the_coordinate_range() {
    assert_eq!(
        ExtractError::CoordinateOverflow.message(),
        "exon block coordinate exceeds the 32-bit range"
    );
}
