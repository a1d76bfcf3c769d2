use vstd::prelude::*;

use crate::position::{has_square, Color};

verus! {

/// The bitboard of the squares below `n` that satisfy `f`.
pub open spec fn board_below(f: spec_fn(int) -> bool, n: int) -> u64
    decreases n,
{
    if n <= 0 {
        0
    } else {
        board_below(f, n - 1) | (if f(n - 1) {
            1u64 << ((n - 1) as u64)
        } else {
            0u64
        })
    }
}

/// The squares a knight on `sq` attacks.
pub open spec fn knight_board(sq: int) -> u64 {
    board_below(|t: int| knight_step(sq, t), 64)
}

/// The squares a king on `sq` attacks.
pub open spec fn king_board(sq: int) -> u64 {
    board_below(|t: int| king_step(sq, t), 64)
}

/// The squares a pawn of side `color` on `sq` attacks.
pub open spec fn pawn_capture_board(sq: int, color: int) -> u64 {
    board_below(|t: int| pawn_capture_step(sq, t, color), 64)
}

/// The squares a pawn of side `color` on `sq` may push to past `blockers`.
pub open spec fn pawn_push_board(sq: int, color: int, blockers: u64) -> u64 {
    board_below(|t: int| pawn_push_step(sq, t, color, blockers), 64)
}

/// The distance between two files or two ranks.
pub open spec fn dist(a: int, b: int) -> int {
    if a >= b {
        a - b
    } else {
        b - a
    }
}

/// Whether a knight moves from square `from` to square `to`.
pub open spec fn knight_step(from: int, to: int) -> bool {
    let df = dist(from % 8, to % 8);
    let dr = dist(from / 8, to / 8);
    (df == 1 && dr == 2) || (df == 2 && dr == 1)
}

/// Whether a king moves from square `from` to square `to`.
pub open spec fn king_step(from: int, to: int) -> bool {
    let df = dist(from % 8, to % 8);
    let dr = dist(from / 8, to / 8);
    df <= 1 && dr <= 1 && from != to
}

/// The rank a pawn of side `color` (0 White, 1 Black) advances by.
pub open spec fn pawn_direction(color: int) -> int {
    if color == 0 {
        1
    } else {
        -1
    }
}

/// Whether a pawn of side `color` on `from` attacks `to`.
pub open spec fn pawn_capture_step(from: int, to: int, color: int) -> bool {
    dist(from % 8, to % 8) == 1 && to / 8 == from / 8 + pawn_direction(color)
}

/// Whether a pawn of side `color` on `from` may push to `to` past `blockers`:
/// one empty square ahead, or two from its second rank with both empty.
pub open spec fn pawn_push_step(from: int, to: int, color: int, blockers: u64) -> bool {
    let ahead = from + 8 * pawn_direction(color);
    let home = if color == 0 {
        1int
    } else {
        6int
    };
    ||| to == ahead && !has_square(blockers, to)
    ||| from / 8 == home && to == ahead + 8 * pawn_direction(color) && !has_square(blockers, ahead)
        && !has_square(blockers, to)
}

/// -1, 0 or 1 by the sign of `x`.
pub open spec fn sign(x: int) -> int {
    if x > 0 {
        1
    } else if x < 0 {
        -1
    } else {
        0
    }
}

/// Whether the `steps - 1` squares strictly between `from` and the square
/// `steps` moves of `step` away are all free of `blockers`.
pub open spec fn clear_between(from: int, steps: int, step: int, blockers: u64) -> bool {
    forall|k: int| 1 <= k < steps ==> !#[trigger] has_square(blockers, from + k * step)
}

/// Whether a bishop on `from` reaches `to`: same diagonal, nothing in between
/// (the first blocker itself is reached).
pub open spec fn bishop_step(from: int, to: int, blockers: u64) -> bool {
    let df = to % 8 - from % 8;
    let dr = to / 8 - from / 8;
    dist(from % 8, to % 8) == dist(from / 8, to / 8) && df != 0 && clear_between(
        from,
        dist(from % 8, to % 8),
        sign(df) + 8 * sign(dr),
        blockers,
    )
}

/// Whether a rook on `from` reaches `to`: same rank or file, nothing in between
/// (the first blocker itself is reached).
pub open spec fn rook_step(from: int, to: int, blockers: u64) -> bool {
    let df = to % 8 - from % 8;
    let dr = to / 8 - from / 8;
    (df == 0) != (dr == 0) && clear_between(
        from,
        dist(from % 8, to % 8) + dist(from / 8, to / 8),
        sign(df) + 8 * sign(dr),
        blockers,
    )
}

/// The squares a bishop on `sq` reaches past `blockers`.
pub open spec fn bishop_board(sq: int, blockers: u64) -> u64 {
    board_below(|t: int| bishop_step(sq, t, blockers), 64)
}

/// The squares a rook on `sq` reaches past `blockers`.
pub open spec fn rook_board(sq: int, blockers: u64) -> u64 {
    board_below(|t: int| rook_step(sq, t, blockers), 64)
}

/// Relies on cozy_chess::get_knight_moves: the on-board squares a knight's
/// step away; `Square::index` panics past 63.
#[verifier::external_body]
pub(crate) fn knight_moves(sq: u64) -> (r: u64)
    requires
        sq < 64,
    ensures
        r == knight_board(sq as int),
{
    cozy_chess::get_knight_moves(cozy_chess::Square::index(sq as usize)).0
}

/// Relies on cozy_chess::get_king_moves: the on-board squares next to `sq`;
/// `Square::index` panics past 63.
#[verifier::external_body]
pub(crate) fn king_moves(sq: u64) -> (r: u64)
    requires
        sq < 64,
    ensures
        r == king_board(sq as int),
{
    cozy_chess::get_king_moves(cozy_chess::Square::index(sq as usize)).0
}

/// Relies on cozy_chess::get_bishop_moves: the squares along each diagonal up
/// to and including the first blocker; `Square::index` panics past 63.
#[verifier::external_body]
pub(crate) fn bishop_moves(sq: u64, blockers: u64) -> (r: u64)
    requires
        sq < 64,
    ensures
        r == bishop_board(sq as int, blockers),
{
    cozy_chess::get_bishop_moves(
        cozy_chess::Square::index(sq as usize),
        cozy_chess::BitBoard(blockers),
    ).0
}

/// Relies on cozy_chess::get_rook_moves: the squares along the rank and the
/// file up to and including the first blocker; `Square::index` panics past 63.
#[verifier::external_body]
pub(crate) fn rook_moves(sq: u64, blockers: u64) -> (r: u64)
    requires
        sq < 64,
    ensures
        r == rook_board(sq as int, blockers),
{
    cozy_chess::get_rook_moves(cozy_chess::Square::index(sq as usize), cozy_chess::BitBoard(blockers)).0
}

/// Relies on cozy_chess::get_pawn_attacks: the on-board squares diagonally
/// ahead of the pawn; `Square::index` panics past 63.
#[verifier::external_body]
pub(crate) fn pawn_captures(sq: u64, color: Color) -> (r: u64)
    requires
        sq < 64,
    ensures
        r == pawn_capture_board(sq as int, color.index()),
{
    let color = match color {
        Color::White => cozy_chess::Color::White,
        Color::Black => cozy_chess::Color::Black,
    };
    cozy_chess::get_pawn_attacks(cozy_chess::Square::index(sq as usize), color).0
}

/// Relies on cozy_chess::get_pawn_quiets: the empty square ahead, and the one
/// beyond it from the second rank when both are empty; `Square::index` panics past 63.
#[verifier::external_body]
pub(crate) fn pawn_quiets(sq: u64, color: Color, blockers: u64) -> (r: u64)
    requires
        sq < 64,
    ensures
        r == pawn_push_board(sq as int, color.index(), blockers),
{
    let color = match color {
        Color::White => cozy_chess::Color::White,
        Color::Black => cozy_chess::Color::Black,
    };
    cozy_chess::get_pawn_quiets(
        cozy_chess::Square::index(sq as usize),
        color,
        cozy_chess::BitBoard(blockers),
    ).0
}

} // verus!
