use parse::batch::WEIGHT_DENOMINATOR;
use parse::board_768::{feature, Board768};
use parse::ice4::{board_feature, pst_feature, Ice4Features};
use parse::ice4_input_features::{
    dense_features, hm_feature, phase, Ice4InputFeatures, BISHOP_PAIR, ICE4_FEATURE_COUNT, MOBILITY,
    TEMPO,
};
use parse::input_features::InputFeatureSetType;
use parse::position::{Color, Position};

fn start_position(side_to_move: Color) -> Position {
    Position {
        colors: [0xFFFF, 0xFFFF_0000_0000_0000],
        pieces: [
            0x00FF_0000_0000_FF00,
            0x4200_0000_0000_0042,
            0x2400_0000_0000_0024,
            0x8100_0000_0000_0081,
            0x0800_0000_0000_0008,
            0x1000_0000_0000_0010,
        ],
        side_to_move,
    }
}

/// Kings on e1 and e8, and one white piece of kind `piece` on `square`.
fn kings_and(piece: usize, square: u32) -> Position {
    let mut pieces = [0u64; 6];
    pieces[5] = (1 << 4) | (1 << 60);
    pieces[piece] |= 1 << square;
    Position {
        colors: [(1 << 4) | (1 << square), 1 << 60],
        pieces,
        side_to_move: Color::White,
    }
}

fn tensor(batch: &parse::Batch, t: usize) -> Vec<(i64, i32)> {
    batch.features().iter().filter(|f| f.tensor == t).map(|f| (f.index, f.weight)).collect()
}

#[test]
fn one_hot_indices() {
    // a2 pawn: piece 0, rank 1, color 0, file 0.
    assert_eq!(feature(Color::White, Color::White, 0, 8), 16);
    // From Black: rank 6, color 1.
    assert_eq!(feature(Color::Black, Color::White, 0, 8), 104);
    // h8 king seen by White: ((5 * 8 + 7) * 2 + 1) * 8 + 7.
    assert_eq!(feature(Color::White, Color::Black, 5, 63), 767);
}

#[test]
fn one_hot_start_position() {
    let mut batch = InputFeatureSetType::Board768.new_batch(1);
    batch.make_entry(0, 1, 0);
    assert_eq!(Board768::add_features(&start_position(Color::White), &mut batch), Ok(()));
    assert_eq!(tensor(&batch, 0).len(), 32);
    assert_eq!(tensor(&batch, 1).len(), 32);
}

#[test]
fn ice4_indices() {
    // a2 pawn seen by White: ((0 * 8 + 0) * 2 + 0) * 8 + 1.
    assert_eq!(board_feature(Color::White, Color::White, 0, 8), 1);
    assert_eq!(board_feature(Color::Black, Color::White, 0, 8), 14);
    // A black e7 pawn, endgame half: rank flipped to 1.
    assert_eq!(pst_feature(Color::Black, 0, 52, 1), ((0 * 8 + 4) * 2 + 1) * 8 + 1);
}

#[test]
fn ice4_phase_blend() {
    assert_eq!(phase(&start_position(Color::White)), 24);
    assert_eq!(phase(&kings_and(3, 0)), 2);
    let mut batch = InputFeatureSetType::Ice4Features.new_batch(1);
    batch.make_entry(0, 1, 0);
    assert_eq!(Ice4Features::add_features(&kings_and(3, 0), &mut batch), Ok(()));
    // Two kings and a rook on both views.
    assert_eq!(tensor(&batch, 0).len(), 3);
    assert_eq!(tensor(&batch, 1).len(), 3);
    // Black's king in tensor 2, White's king and rook in tensor 3.
    assert_eq!(tensor(&batch, 2).len(), 2);
    let own = tensor(&batch, 3);
    assert_eq!(own.len(), 4);
    // The rook on a1: middlegame weight 2/24, endgame weight 22/24.
    assert_eq!(own[0], ((3 * 8) * 2 * 8, 2));
    assert_eq!(own[1], (((3 * 8) * 2 + 1) * 8, WEIGHT_DENOMINATOR - 2));
}

#[test]
fn folded_squares() {
    assert_eq!(hm_feature(0), 0);
    assert_eq!(hm_feature(7), 0);
    assert_eq!(hm_feature(63), 0);
    assert_eq!(hm_feature(27), 15);
    assert_eq!(hm_feature(36), 15);
}

#[test]
fn dense_table_tempo() {
    let white = dense_features(&start_position(Color::White));
    assert_eq!(white.len(), ICE4_FEATURE_COUNT);
    assert_eq!(white[TEMPO], 1);
    let black = dense_features(&start_position(Color::Black));
    assert_eq!(black[TEMPO], -1);
}

#[test]
fn mobility_of_each_piece() {
    // Knight on b1: a3, c3 and d2.
    assert_eq!(dense_features(&kings_and(1, 1))[MOBILITY + 1], 3);
    // Bishop on c1: b2, a3, d2, e3, f4, g5, h6.
    assert_eq!(dense_features(&kings_and(2, 2))[MOBILITY + 2], 7);
    // Rook on a1: the a-file and b1 to d1, short of its own king.
    assert_eq!(dense_features(&kings_and(3, 0))[MOBILITY + 3], 10);
    // Queen on d4 (27): 27 squares on an empty board.
    assert_eq!(dense_features(&kings_and(4, 27))[MOBILITY + 4], 27);
    // Pawn on e2: e3 and e4.
    assert_eq!(dense_features(&kings_and(0, 12))[MOBILITY], 2);
    // Kings on e1 and e8 each have five free squares.
    assert_eq!(dense_features(&kings_and(3, 0))[MOBILITY + 5], 0);
}

#[test]
fn ice4_input_features_start_position() {
    let mut batch = InputFeatureSetType::Ice4InputFeatures.new_batch(1);
    batch.make_entry(0, 1, 0);
    assert_eq!(Ice4InputFeatures::add_features(&start_position(Color::White), &mut batch), Ok(()));
    let dense = dense_features(&start_position(Color::White));
    let expected: Vec<(i64, i32)> = dense
        .iter()
        .enumerate()
        .filter(|(_, &v)| v != 0)
        .map(|(i, &v)| (i as i64, v * WEIGHT_DENOMINATOR))
        .collect();
    assert_eq!(tensor(&batch, 0), expected);
    // Every term cancels between the sides but the tempo of the side to move.
    assert_eq!(tensor(&batch, 0), vec![(TEMPO as i64, WEIGHT_DENOMINATOR)]);
    assert_eq!(tensor(&batch, 1), vec![(0, 24)]);
    let mut batch = InputFeatureSetType::Ice4InputFeatures.new_batch(1);
    batch.make_entry(0, 1, 0);
    assert_eq!(Ice4InputFeatures::add_features(&start_position(Color::Black), &mut batch), Ok(()));
    assert_eq!(tensor(&batch, 0), vec![(TEMPO as i64, -WEIGHT_DENOMINATOR)]);
}

#[test]
fn dense_table_bishop_pair() {
    let both = dense_features(&start_position(Color::White));
    assert_eq!(both[BISHOP_PAIR], 0);
    let mut pos = start_position(Color::White);
    // Black loses its bishops: only White keeps the pair.
    pos.pieces[2] = 0x24;
    pos.colors[1] &= !0x2400_0000_0000_0000;
    assert_eq!(dense_features(&pos)[BISHOP_PAIR], 1);
    // White loses one bishop too: neither side has the pair.
    pos.pieces[2] = 0x04;
    pos.colors[0] &= !0x20;
    assert_eq!(dense_features(&pos)[BISHOP_PAIR], 0);
}

#[test]
fn legal_start_position_fits_every_encoder() {
    let pos = start_position(Color::Black);
    let mut batch = InputFeatureSetType::Ice4Features.new_batch(1);
    batch.make_entry(0, 1, 0);
    assert_eq!(Ice4Features::add_features(&pos, &mut batch), Ok(()));
    for t in 0..4 {
        assert_eq!(tensor(&batch, t).len(), 32);
    }
    let mut batch = InputFeatureSetType::Board768.new_batch(1);
    batch.make_entry(0, 1, 0);
    assert_eq!(Board768::add_features(&pos, &mut batch), Ok(()));
    let mut batch = InputFeatureSetType::Ice4InputFeatures.new_batch(1);
    batch.make_entry(0, 1, 0);
    assert_eq!(Ice4InputFeatures::add_features(&pos, &mut batch), Ok(()));
}

#[test]
fn pawn_captures_count_as_mobility() {
    // White pawn on e2, black pawn on d3: White has e3, e4 and takes d3 (3);
    // Black has d2 and takes e2 (2).
    let mut pos = kings_and(0, 12);
    pos.pieces[0] |= 1 << 19;
    pos.colors[1] |= 1 << 19;
    assert_eq!(dense_features(&pos)[MOBILITY], 1);
}
