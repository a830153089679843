//! The static evaluator: material, piece-square tables, and an endgame
//! king-hunt term, all defined exactly by spec functions.

use vstd::prelude::*;

use crate::rules::{occ_of, board_status};
use crate::types::{Color, GameStatus, opposite, PAWN, KNIGHT, BISHOP, ROOK, QUEEN, KING, EVAL_BOUND};

verus! {

/// Square bonuses for a black pawn, as seen from the black
/// side; a white piece reads the rank-mirrored entry.
#[verifier::opaque]
pub open spec fn pawn_table() -> Seq<i32> {
    seq![
        0i32, 0i32, 0i32, 0i32, 0i32, 0i32, 0i32, 0i32,
        50i32, 50i32, 50i32, 50i32, 50i32, 50i32, 50i32, 50i32,
        10i32, 10i32, 20i32, 30i32, 30i32, 20i32, 10i32, 10i32,
        5i32, 5i32, 10i32, 25i32, 25i32, 10i32, 5i32, 5i32,
        0i32, 0i32, 0i32, 20i32, 20i32, 0i32, 0i32, 0i32,
        5i32, -5i32, -10i32, 0i32, 0i32, -10i32, -5i32, 5i32,
        5i32, 10i32, 10i32, -20i32, -20i32, 10i32, 10i32, 5i32,
        0i32, 0i32, 0i32, 0i32, 0i32, 0i32, 0i32, 0i32,
    ]
}

/// Square bonuses for a black knight, as seen from the black
/// side; a white piece reads the rank-mirrored entry.
#[verifier::opaque]
pub open spec fn knight_table() -> Seq<i32> {
    seq![
        -50i32, -40i32, -30i32, -30i32, -30i32, -30i32, -40i32, -50i32,
        -40i32, -20i32, 0i32, 0i32, 0i32, 0i32, -20i32, -40i32,
        -30i32, 0i32, 10i32, 15i32, 15i32, 10i32, 0i32, -30i32,
        -30i32, 5i32, 15i32, 20i32, 20i32, 15i32, 5i32, -30i32,
        -30i32, 0i32, 15i32, 20i32, 20i32, 15i32, 0i32, -30i32,
        -30i32, 5i32, 10i32, 15i32, 15i32, 10i32, 5i32, -30i32,
        -40i32, -20i32, 0i32, 5i32, 5i32, 0i32, -20i32, -40i32,
        -50i32, -40i32, -30i32, -30i32, -30i32, -30i32, -40i32, -50i32,
    ]
}

/// Square bonuses for a black bishop, as seen from the black
/// side; a white piece reads the rank-mirrored entry.
#[verifier::opaque]
pub open spec fn bishop_table() -> Seq<i32> {
    seq![
        -20i32, -10i32, -10i32, -10i32, -10i32, -10i32, -10i32, -20i32,
        -10i32, 0i32, 0i32, 0i32, 0i32, 0i32, 0i32, -10i32,
        -10i32, 0i32, 5i32, 10i32, 10i32, 5i32, 0i32, -10i32,
        -10i32, 5i32, 5i32, 10i32, 10i32, 5i32, 5i32, -10i32,
        -10i32, 0i32, 10i32, 10i32, 10i32, 10i32, 0i32, -10i32,
        -10i32, 10i32, 10i32, 10i32, 10i32, 10i32, 10i32, -10i32,
        -10i32, 5i32, 0i32, 0i32, 0i32, 0i32, 5i32, -10i32,
        -20i32, -10i32, -10i32, -10i32, -10i32, -10i32, -10i32, -20i32,
    ]
}

/// Square bonuses for a black rook, as seen from the black
/// side; a white piece reads the rank-mirrored entry.
#[verifier::opaque]
pub open spec fn rook_table() -> Seq<i32> {
    seq![
        0i32, 0i32, 0i32, 0i32, 0i32, 0i32, 0i32, 0i32,
        5i32, 10i32, 10i32, 10i32, 10i32, 10i32, 10i32, 5i32,
        -5i32, 0i32, 0i32, 0i32, 0i32, 0i32, 0i32, -5i32,
        -5i32, 0i32, 0i32, 0i32, 0i32, 0i32, 0i32, -5i32,
        -5i32, 0i32, 0i32, 0i32, 0i32, 0i32, 0i32, -5i32,
        -5i32, 0i32, 0i32, 0i32, 0i32, 0i32, 0i32, -5i32,
        -5i32, 0i32, 0i32, 0i32, 0i32, 0i32, 0i32, -5i32,
        0i32, 0i32, 0i32, 5i32, 5i32, 0i32, 0i32, 0i32,
    ]
}

/// Square bonuses for a black queen, as seen from the black
/// side; a white piece reads the rank-mirrored entry.
#[verifier::opaque]
pub open spec fn queen_table() -> Seq<i32> {
    seq![
        -20i32, -10i32, -10i32, -5i32, -5i32, -10i32, -10i32, -20i32,
        -10i32, 0i32, 0i32, 0i32, 0i32, 0i32, 0i32, -10i32,
        -10i32, 0i32, 5i32, 5i32, 5i32, 5i32, 0i32, -10i32,
        -5i32, 0i32, 5i32, 5i32, 5i32, 5i32, 0i32, -5i32,
        0i32, 0i32, 5i32, 5i32, 5i32, 5i32, 0i32, -5i32,
        -10i32, 5i32, 5i32, 5i32, 5i32, 5i32, 0i32, -10i32,
        -10i32, 0i32, 5i32, 0i32, 0i32, 0i32, 0i32, -10i32,
        -20i32, -10i32, -10i32, -5i32, -5i32, -10i32, -10i32, -20i32,
    ]
}

/// Square bonuses for a king in the midgame, as seen from the black
/// side; a white piece reads the rank-mirrored entry.
#[verifier::opaque]
pub open spec fn king_mid_table() -> Seq<i32> {
    seq![
        -30i32, -40i32, -40i32, -50i32, -50i32, -40i32, -40i32, -30i32,
        -30i32, -40i32, -40i32, -50i32, -50i32, -40i32, -40i32, -30i32,
        -30i32, -40i32, -40i32, -50i32, -50i32, -40i32, -40i32, -30i32,
        -30i32, -40i32, -40i32, -50i32, -50i32, -40i32, -40i32, -30i32,
        -20i32, -30i32, -30i32, -40i32, -40i32, -30i32, -30i32, -20i32,
        -10i32, -20i32, -20i32, -20i32, -20i32, -20i32, -20i32, -10i32,
        20i32, 20i32, 0i32, 0i32, 0i32, 0i32, 20i32, 20i32,
        20i32, 30i32, 10i32, 0i32, 0i32, 10i32, 30i32, 20i32,
    ]
}
fn pawn_table_vec() -> (v: Vec<i32>)
    ensures
        v@ == pawn_table(),
{
    let v: Vec<i32> = vec![
        0i32, 0i32, 0i32, 0i32, 0i32, 0i32, 0i32, 0i32,
        50i32, 50i32, 50i32, 50i32, 50i32, 50i32, 50i32, 50i32,
        10i32, 10i32, 20i32, 30i32, 30i32, 20i32, 10i32, 10i32,
        5i32, 5i32, 10i32, 25i32, 25i32, 10i32, 5i32, 5i32,
        0i32, 0i32, 0i32, 20i32, 20i32, 0i32, 0i32, 0i32,
        5i32, -5i32, -10i32, 0i32, 0i32, -10i32, -5i32, 5i32,
        5i32, 10i32, 10i32, -20i32, -20i32, 10i32, 10i32, 5i32,
        0i32, 0i32, 0i32, 0i32, 0i32, 0i32, 0i32, 0i32,
    ];
    proof {
        reveal(pawn_table);
        assert(v@ =~= pawn_table());
    }
    v
}

fn knight_table_vec() -> (v: Vec<i32>)
    ensures
        v@ == knight_table(),
{
    let v: Vec<i32> = vec![
        -50i32, -40i32, -30i32, -30i32, -30i32, -30i32, -40i32, -50i32,
        -40i32, -20i32, 0i32, 0i32, 0i32, 0i32, -20i32, -40i32,
        -30i32, 0i32, 10i32, 15i32, 15i32, 10i32, 0i32, -30i32,
        -30i32, 5i32, 15i32, 20i32, 20i32, 15i32, 5i32, -30i32,
        -30i32, 0i32, 15i32, 20i32, 20i32, 15i32, 0i32, -30i32,
        -30i32, 5i32, 10i32, 15i32, 15i32, 10i32, 5i32, -30i32,
        -40i32, -20i32, 0i32, 5i32, 5i32, 0i32, -20i32, -40i32,
        -50i32, -40i32, -30i32, -30i32, -30i32, -30i32, -40i32, -50i32,
    ];
    proof {
        reveal(knight_table);
        assert(v@ =~= knight_table());
    }
    v
}

fn bishop_table_vec() -> (v: Vec<i32>)
    ensures
        v@ == bishop_table(),
{
    let v: Vec<i32> = vec![
        -20i32, -10i32, -10i32, -10i32, -10i32, -10i32, -10i32, -20i32,
        -10i32, 0i32, 0i32, 0i32, 0i32, 0i32, 0i32, -10i32,
        -10i32, 0i32, 5i32, 10i32, 10i32, 5i32, 0i32, -10i32,
        -10i32, 5i32, 5i32, 10i32, 10i32, 5i32, 5i32, -10i32,
        -10i32, 0i32, 10i32, 10i32, 10i32, 10i32, 0i32, -10i32,
        -10i32, 10i32, 10i32, 10i32, 10i32, 10i32, 10i32, -10i32,
        -10i32, 5i32, 0i32, 0i32, 0i32, 0i32, 5i32, -10i32,
        -20i32, -10i32, -10i32, -10i32, -10i32, -10i32, -10i32, -20i32,
    ];
    proof {
        reveal(bishop_table);
        assert(v@ =~= bishop_table());
    }
    v
}

fn rook_table_vec() -> (v: Vec<i32>)
    ensures
        v@ == rook_table(),
{
    let v: Vec<i32> = vec![
        0i32, 0i32, 0i32, 0i32, 0i32, 0i32, 0i32, 0i32,
        5i32, 10i32, 10i32, 10i32, 10i32, 10i32, 10i32, 5i32,
        -5i32, 0i32, 0i32, 0i32, 0i32, 0i32, 0i32, -5i32,
        -5i32, 0i32, 0i32, 0i32, 0i32, 0i32, 0i32, -5i32,
        -5i32, 0i32, 0i32, 0i32, 0i32, 0i32, 0i32, -5i32,
        -5i32, 0i32, 0i32, 0i32, 0i32, 0i32, 0i32, -5i32,
        -5i32, 0i32, 0i32, 0i32, 0i32, 0i32, 0i32, -5i32,
        0i32, 0i32, 0i32, 5i32, 5i32, 0i32, 0i32, 0i32,
    ];
    proof {
        reveal(rook_table);
        assert(v@ =~= rook_table());
    }
    v
}

fn queen_table_vec() -> (v: Vec<i32>)
    ensures
        v@ == queen_table(),
{
    let v: Vec<i32> = vec![
        -20i32, -10i32, -10i32, -5i32, -5i32, -10i32, -10i32, -20i32,
        -10i32, 0i32, 0i32, 0i32, 0i32, 0i32, 0i32, -10i32,
        -10i32, 0i32, 5i32, 5i32, 5i32, 5i32, 0i32, -10i32,
        -5i32, 0i32, 5i32, 5i32, 5i32, 5i32, 0i32, -5i32,
        0i32, 0i32, 5i32, 5i32, 5i32, 5i32, 0i32, -5i32,
        -10i32, 5i32, 5i32, 5i32, 5i32, 5i32, 0i32, -10i32,
        -10i32, 0i32, 5i32, 0i32, 0i32, 0i32, 0i32, -10i32,
        -20i32, -10i32, -10i32, -5i32, -5i32, -10i32, -10i32, -20i32,
    ];
    proof {
        reveal(queen_table);
        assert(v@ =~= queen_table());
    }
    v
}

fn king_mid_table_vec() -> (v: Vec<i32>)
    ensures
        v@ == king_mid_table(),
{
    let v: Vec<i32> = vec![
        -30i32, -40i32, -40i32, -50i32, -50i32, -40i32, -40i32, -30i32,
        -30i32, -40i32, -40i32, -50i32, -50i32, -40i32, -40i32, -30i32,
        -30i32, -40i32, -40i32, -50i32, -50i32, -40i32, -40i32, -30i32,
        -30i32, -40i32, -40i32, -50i32, -50i32, -40i32, -40i32, -30i32,
        -20i32, -30i32, -30i32, -40i32, -40i32, -30i32, -30i32, -20i32,
        -10i32, -20i32, -20i32, -20i32, -20i32, -20i32, -20i32, -10i32,
        20i32, 20i32, 0i32, 0i32, 0i32, 0i32, 20i32, 20i32,
        20i32, 30i32, 10i32, 0i32, 0i32, 10i32, 30i32, 20i32,
    ];
    proof {
        reveal(king_mid_table);
        assert(v@ =~= king_mid_table());
    }
    v
}

/// Each piece-square table covers the 64 squares.
proof fn lemma_table_lens()
    ensures
        pawn_table().len() == 64,
        knight_table().len() == 64,
        bishop_table().len() == 64,
        rook_table().len() == 64,
        queen_table().len() == 64,
        king_mid_table().len() == 64,
{
    reveal(pawn_table);
    reveal(knight_table);
    reveal(bishop_table);
    reveal(rook_table);
    reveal(queen_table);
    reveal(king_mid_table);
}

/// The rank-mirrored square index: the same file, seen from the other side
/// of the board.
pub open spec fn mirror(sq: int) -> int {
    8 * (7 - sq / 8) + sq % 8
}

/// Material worth of a piece in centipawns; the king carries none.
pub open spec fn piece_value(p: u8) -> int {
    if p == PAWN {
        100
    } else if p == KNIGHT {
        300
    } else if p == BISHOP {
        300
    } else if p == ROOK {
        500
    } else if p == QUEEN {
        900
    } else {
        0
    }
}

/// Material worth of a piece code, used by move ordering and the material
/// sum; never a positional judgement.
pub fn get_piece_value(piece: u8) -> (r: i32)
    ensures
        r == piece_value(piece),
{
    if piece == PAWN {
        100
    } else if piece == KNIGHT {
        300
    } else if piece == BISHOP {
        300
    } else if piece == ROOK {
        500
    } else if piece == QUEEN {
        900
    } else {
        0
    }
}

/// The piece-square entry for piece code `p` read at table index `idx`.
/// The king only has one while enough enemy material is on the board.
pub open spec fn table_entry(p: u8, idx: int, king_mid: bool) -> int {
    if p == PAWN {
        pawn_table()[idx] as int
    } else if p == KNIGHT {
        knight_table()[idx] as int
    } else if p == BISHOP {
        bishop_table()[idx] as int
    } else if p == ROOK {
        rook_table()[idx] as int
    } else if p == QUEEN {
        queen_table()[idx] as int
    } else if p == KING && king_mid {
        king_mid_table()[idx] as int
    } else {
        0
    }
}

/// Positional contribution of one square, white-positive: a white piece
/// reads its table at the mirrored index, a black piece subtracts the entry
/// at its own index. Each side's king table is gated by its own flag (live
/// while that side's opponent still has more than seven non-king pieces).
pub open spec fn cell_pst(cell: Option<(u8, Color)>, sq: int, km_white: bool, km_black: bool) -> int {
    match cell {
        None => 0,
        Some((p, c)) => if c == Color::White {
            table_entry(p, mirror(sq), km_white)
        } else {
            -table_entry(p, sq, km_black)
        },
    }
}

/// Material contribution of one square, white-positive.
pub open spec fn cell_material(cell: Option<(u8, Color)>) -> int {
    match cell {
        None => 0,
        Some((p, c)) => if c == Color::White {
            piece_value(p)
        } else {
            -piece_value(p)
        },
    }
}

/// Whether one square holds a non-king piece of color `c`.
pub open spec fn cell_is_nonking(cell: Option<(u8, Color)>, c: Color) -> bool {
    match cell {
        None => false,
        Some((p, cc)) => cc == c && p != KING,
    }
}

/// Positional total over the first `n` squares.
pub open spec fn pst_sum(
    occ: Seq<Option<(u8, Color)>>,
    km_white: bool,
    km_black: bool,
    n: int,
) -> int
    decreases n,
{
    if n <= 0 {
        0
    } else {
        pst_sum(occ, km_white, km_black, n - 1) + cell_pst(occ[n - 1], n - 1, km_white, km_black)
    }
}

/// Material total over the first `n` squares.
pub open spec fn material_sum(occ: Seq<Option<(u8, Color)>>, n: int) -> int
    decreases n,
{
    if n <= 0 {
        0
    } else {
        material_sum(occ, n - 1) + cell_material(occ[n - 1])
    }
}

/// One or zero: whether one square holds a non-king piece of color `c`.
pub open spec fn cell_nonking_one(cell: Option<(u8, Color)>, c: Color) -> int {
    if cell_is_nonking(cell, c) {
        1
    } else {
        0
    }
}

/// Non-king pieces of color `c` among the first `n` squares.
pub open spec fn nonking_count(occ: Seq<Option<(u8, Color)>>, c: Color, n: int) -> int
    decreases n,
{
    if n <= 0 {
        0
    } else {
        nonking_count(occ, c, n - 1) + cell_nonking_one(occ[n - 1], c)
    }
}

/// The first square from `i` upward holding the king of color `c`.
pub open spec fn king_from(occ: Seq<Option<(u8, Color)>>, c: Color, i: int) -> Option<int>
    decreases 64 - i,
{
    if i < 0 || i >= 64 {
        None
    } else if occ[i] == Some((KING, c)) {
        Some(i)
    } else {
        king_from(occ, c, i + 1)
    }
}

/// The square of the king of color `c`, if one stands on the board.
pub open spec fn king_square(occ: Seq<Option<(u8, Color)>>, c: Color) -> Option<int> {
    king_from(occ, c, 0)
}

/// Taxicab distance of a square from the four central squares.
pub open spec fn center_distance(sq: int) -> int {
    let f = sq % 8;
    let r = sq / 8;
    (if 3 - f >= f - 4 { 3 - f } else { f - 4 }) + (if 3 - r >= r - 4 { 3 - r } else { r - 4 })
}

/// Taxicab distance between two squares.
pub open spec fn kings_distance(a: int, b: int) -> int {
    let df = if a % 8 >= b % 8 { a % 8 - b % 8 } else { b % 8 - a % 8 };
    let dr = if a / 8 >= b / 8 { a / 8 - b / 8 } else { b / 8 - a / 8 };
    df + dr
}

/// The endgame king-hunt reward for `c`: pushing the enemy king away from
/// the center and walking one's own king toward it, intensified as the
/// enemy sheds material. Zero when either king is missing.
pub open spec fn hunt_term(occ: Seq<Option<(u8, Color)>>, c: Color, opp_count: int) -> int {
    match (king_square(occ, c), king_square(occ, opposite(c))) {
        (Some(k), Some(ok)) => (center_distance(ok) + 14 - kings_distance(k, ok)) * 10 * (20
            - opp_count),
        _ => 0,
    }
}

/// The full static score of a position for `color`: zero at stalemate,
/// otherwise one raw white-positive score multiplied by the perspective
/// sign, so the two sides' scores always negate each other. The raw score
/// is material plus piece-square totals plus each side's king-hunt reward
/// (added for White's hunt, subtracted for Black's), a side's hunt turning
/// on exactly when its opponent is down to at most seven non-king pieces,
/// which also retires that side's midgame king table.
pub open spec fn spec_evaluate(
    occ: Seq<Option<(u8, Color)>>,
    status: GameStatus,
    color: Color,
) -> int {
    if status == GameStatus::Stalemate {
        0
    } else {
        let n_white = nonking_count(occ, Color::White, 64);
        let n_black = nonking_count(occ, Color::Black, 64);
        let white_hunt = if n_black <= 7 {
            hunt_term(occ, Color::White, n_black)
        } else {
            0
        };
        let black_hunt = if n_white <= 7 {
            hunt_term(occ, Color::Black, n_white)
        } else {
            0
        };
        let raw = material_sum(occ, 64) + pst_sum(occ, n_black > 7, n_white > 7, 64) + white_hunt
            - black_hunt;
        if color == Color::White {
            raw
        } else {
            -raw
        }
    }
}

/// Every piece-square table entry lies between -50 and 50.
proof fn lemma_table_bounds()
    ensures
        forall|i: int| 0 <= i < 64 ==> -50 <= #[trigger] pawn_table()[i] <= 50,
        forall|i: int| 0 <= i < 64 ==> -50 <= #[trigger] knight_table()[i] <= 50,
        forall|i: int| 0 <= i < 64 ==> -50 <= #[trigger] bishop_table()[i] <= 50,
        forall|i: int| 0 <= i < 64 ==> -50 <= #[trigger] rook_table()[i] <= 50,
        forall|i: int| 0 <= i < 64 ==> -50 <= #[trigger] queen_table()[i] <= 50,
        forall|i: int| 0 <= i < 64 ==> -50 <= #[trigger] king_mid_table()[i] <= 50,
{
    reveal(pawn_table);
    reveal(knight_table);
    reveal(bishop_table);
    reveal(rook_table);
    reveal(queen_table);
    reveal(king_mid_table);
}

/// The mirrored index of a board square is a board square.
proof fn lemma_mirror_range(sq: int)
    requires
        0 <= sq < 64,
    ensures
        0 <= mirror(sq) < 64,
        0 <= mirror(mirror(sq)) < 64,
        mirror(mirror(sq)) == sq,
{
}

/// One square contributes at most 50 points of positional score.
proof fn lemma_cell_pst_bound(cell: Option<(u8, Color)>, sq: int, km_white: bool, km_black: bool)
    requires
        0 <= sq < 64,
    ensures
        -50 <= cell_pst(cell, sq, km_white, km_black) <= 50,
{
    lemma_table_bounds();
    lemma_mirror_range(sq);
}

/// The positional total over `n` squares stays within 50 a square.
proof fn lemma_pst_sum_bound(occ: Seq<Option<(u8, Color)>>, km_white: bool, km_black: bool, n: int)
    requires
        0 <= n <= 64,
    ensures
        -50 * n <= pst_sum(occ, km_white, km_black, n) <= 50 * n,
    decreases n,
{
    if n > 0 {
        lemma_pst_sum_bound(occ, km_white, km_black, n - 1);
        lemma_cell_pst_bound(occ[n - 1], n - 1, km_white, km_black);
    }
}

/// The material total over `n` squares stays within 900 a square.
proof fn lemma_material_sum_bound(occ: Seq<Option<(u8, Color)>>, n: int)
    requires
        0 <= n,
    ensures
        -900 * n <= material_sum(occ, n) <= 900 * n,
    decreases n,
{
    if n > 0 {
        lemma_material_sum_bound(occ, n - 1);
    }
}

/// A count over `n` squares lies between 0 and `n`.
proof fn lemma_nonking_count_bound(occ: Seq<Option<(u8, Color)>>, c: Color, n: int)
    requires
        0 <= n,
    ensures
        0 <= nonking_count(occ, c, n) <= n,
    decreases n,
{
    if n > 0 {
        lemma_nonking_count_bound(occ, c, n - 1);
    }
}

/// A found king stands on a board square holding that king.
pub proof fn lemma_king_from(occ: Seq<Option<(u8, Color)>>, c: Color, i: int)
    ensures
        king_from(occ, c, i) matches Some(k) ==> i <= k < 64 && occ[k] == Some((KING, c)),
    decreases 64 - i,
{
    if 0 <= i < 64 {
        lemma_king_from(occ, c, i + 1);
    }
}

/// With at most seven opposing non-king pieces the hunt reward lies in
/// [0, 4000].
proof fn lemma_hunt_bound(occ: Seq<Option<(u8, Color)>>, c: Color, opp_count: int)
    requires
        0 <= opp_count <= 7,
    ensures
        0 <= hunt_term(occ, c, opp_count) <= 4000,
{
    match (king_square(occ, c), king_square(occ, opposite(c))) {
        (Some(k), Some(ok)) => {
            lemma_king_from(occ, c, 0);
            lemma_king_from(occ, opposite(c), 0);
            let a = center_distance(ok) + 14 - kings_distance(k, ok);
            assert(0 <= a <= 20);
            assert(0 <= a * 10 * (20 - opp_count) <= 4000) by (nonlinear_arith)
                requires
                    0 <= a <= 20,
                    0 <= opp_count <= 7,
            ;
        },
        _ => {},
    }
}

/// Static evaluations never leave `[-EVAL_BOUND, EVAL_BOUND]`; in
/// particular they never reach the mate score.
pub proof fn lemma_eval_bound(occ: Seq<Option<(u8, Color)>>, status: GameStatus, color: Color)
    ensures
        -EVAL_BOUND <= spec_evaluate(occ, status, color) <= EVAL_BOUND,
{
    if status != GameStatus::Stalemate {
        let n_white = nonking_count(occ, Color::White, 64);
        let n_black = nonking_count(occ, Color::Black, 64);
        lemma_nonking_count_bound(occ, Color::White, 64);
        lemma_nonking_count_bound(occ, Color::Black, 64);
        lemma_material_sum_bound(occ, 64);
        lemma_pst_sum_bound(occ, n_black > 7, n_white > 7, 64);
        if n_black <= 7 {
            lemma_hunt_bound(occ, Color::White, n_black);
        }
        if n_white <= 7 {
            lemma_hunt_bound(occ, Color::Black, n_white);
        }
    }
}

/// The rank-mirrored square, executable form.
fn mirror_sq(sq: usize) -> (r: usize)
    requires
        sq < 64,
    ensures
        r == mirror(sq as int),
        r < 64,
{
    (7 - sq / 8) * 8 + sq % 8
}

/// The first square holding the king of color `c`, if any.
fn find_king(occ: &Vec<Option<(u8, Color)>>, c: Color) -> (r: Option<usize>)
    requires
        occ@.len() == 64,
    ensures
        match r {
            Some(k) => k < 64 && king_square(occ@, c) == Some(k as int),
            None => king_square(occ@, c) is None,
        },
{
    let mut i: usize = 0;
    while i < 64
        invariant
            i <= 64,
            occ@.len() == 64,
            king_from(occ@, c, 0) == king_from(occ@, c, i as int),
        decreases 64 - i,
    {
        match occ[i] {
            Some((p, cc)) => {
                if p == KING && cc == c {
                    return Some(i);
                }
            },
            None => {},
        }
        i = i + 1;
    }
    None
}

/// Count of non-king pieces of color `c` on the board.
fn count_nonking(occ: &Vec<Option<(u8, Color)>>, c: Color) -> (n: u32)
    requires
        occ@.len() == 64,
    ensures
        n == nonking_count(occ@, c, 64),
        n <= 64,
{
    let mut n: u32 = 0;
    let mut i: usize = 0;
    while i < 64
        invariant
            i <= 64,
            occ@.len() == 64,
            n == nonking_count(occ@, c, i as int),
            n <= i,
        decreases 64 - i,
    {
        match occ[i] {
            Some((p, cc)) => {
                if cc == c && p != KING {
                    n = n + 1;
                }
            },
            None => {},
        }
        i = i + 1;
    }
    n
}

/// White-minus-black material total of the board.
fn material_total(occ: &Vec<Option<(u8, Color)>>) -> (m: i32)
    requires
        occ@.len() == 64,
    ensures
        m == material_sum(occ@, 64),
        -57600 <= m <= 57600,
{
    let mut m: i32 = 0;
    let mut i: usize = 0;
    while i < 64
        invariant
            i <= 64,
            occ@.len() == 64,
            m == material_sum(occ@, i as int),
            -900 * (i as int) <= m <= 900 * (i as int),
        decreases 64 - i,
    {
        match occ[i] {
            Some((p, cc)) => {
                let v = get_piece_value(p);
                if cc == Color::White {
                    m = m + v;
                } else {
                    m = m - v;
                }
            },
            None => {},
        }
        i = i + 1;
    }
    m
}

/// White-minus-black piece-square total of the board.
fn pst_total(occ: &Vec<Option<(u8, Color)>>, km_white: bool, km_black: bool) -> (t: i32)
    requires
        occ@.len() == 64,
    ensures
        t == pst_sum(occ@, km_white, km_black, 64),
        -3200 <= t <= 3200,
{
    let pt = pawn_table_vec();
    let nt = knight_table_vec();
    let bt = bishop_table_vec();
    let rt = rook_table_vec();
    let qt = queen_table_vec();
    let kt = king_mid_table_vec();
    proof {
        lemma_table_lens();
    }
    let mut t: i32 = 0;
    let mut i: usize = 0;
    while i < 64
        invariant
            i <= 64,
            occ@.len() == 64,
            pt@ == pawn_table(),
            nt@ == knight_table(),
            bt@ == bishop_table(),
            rt@ == rook_table(),
            qt@ == queen_table(),
            kt@ == king_mid_table(),
            pt@.len() == 64 && nt@.len() == 64 && bt@.len() == 64,
            rt@.len() == 64 && qt@.len() == 64 && kt@.len() == 64,
            t == pst_sum(occ@, km_white, km_black, i as int),
            -50 * (i as int) <= t <= 50 * (i as int),
        decreases 64 - i,
    {
        proof {
            lemma_cell_pst_bound(occ@[i as int], i as int, km_white, km_black);
        }
        match occ[i] {
            Some((p, cc)) => {
                let idx = if cc == Color::White {
                    mirror_sq(i)
                } else {
                    i
                };
                let km = if cc == Color::White {
                    km_white
                } else {
                    km_black
                };
                let e: i32 = if p == PAWN {
                    pt[idx]
                } else if p == KNIGHT {
                    nt[idx]
                } else if p == BISHOP {
                    bt[idx]
                } else if p == ROOK {
                    rt[idx]
                } else if p == QUEEN {
                    qt[idx]
                } else if p == KING && km {
                    kt[idx]
                } else {
                    0
                };
                if cc == Color::White {
                    t = t + e;
                } else {
                    t = t - e;
                }
            },
            None => {},
        }
        i = i + 1;
    }
    t
}

/// The endgame king-hunt reward for `c`, executable form.
#[verifier::rlimit(60)]
fn hunt_reward(occ: &Vec<Option<(u8, Color)>>, c: Color, opp: Color, n_opp: u32) -> (h: i32)
    requires
        occ@.len() == 64,
        opp == opposite(c),
        n_opp <= 7,
    ensures
        h == hunt_term(occ@, c, n_opp as int),
        0 <= h <= 4000,
{
    proof {
        lemma_hunt_bound(occ@, c, n_opp as int);
    }
    match (find_king(occ, c), find_king(occ, opp)) {
        (Some(k), Some(ok)) => {
            let kf: i32 = (k % 8) as i32;
            let kr: i32 = (k / 8) as i32;
            let of_: i32 = (ok % 8) as i32;
            let or_: i32 = (ok / 8) as i32;
            let cdf: i32 = if 3 - of_ >= of_ - 4 {
                3 - of_
            } else {
                of_ - 4
            };
            let cdr: i32 = if 3 - or_ >= or_ - 4 {
                3 - or_
            } else {
                or_ - 4
            };
            let df: i32 = if kf >= of_ {
                kf - of_
            } else {
                of_ - kf
            };
            let dr: i32 = if kr >= or_ {
                kr - or_
            } else {
                or_ - kr
            };
            let a: i32 = cdf + cdr + 14 - (df + dr);
            let scale: i32 = 20 - (n_opp as i32);
            assert(0 <= a * 10 * scale <= 4000) by (nonlinear_arith)
                requires
                    0 <= a <= 20,
                    13 <= scale <= 20,
            ;
            a * 10 * scale
        },
        _ => 0,
    }
}

/// The static score of the position for `color`, positive when `color`
/// stands better: one raw white-positive score (material, piece-square
/// bonuses, both sides' endgame king-hunt rewards) multiplied by the
/// perspective sign, and exactly zero at stalemate. The two perspectives
/// always negate each other.
pub fn evaluate(board: &chess::Board, color: Color) -> (r: i32)
    ensures
        r == spec_evaluate(occ_of(*board), board_status(*board), color),
        -EVAL_BOUND <= r <= EVAL_BOUND,
{
    let status = crate::rules::status_of(board);
    if status == GameStatus::Stalemate {
        return 0;
    }
    let occ = crate::rules::occupants(board);
    proof {
        assert(occ@ =~= occ_of(*board));
    }
    let n_white = count_nonking(&occ, Color::White);
    let n_black = count_nonking(&occ, Color::Black);
    let material = material_total(&occ);
    let pst = pst_total(&occ, n_black > 7, n_white > 7);
    let white_hunt: i32 = if n_black <= 7 {
        hunt_reward(&occ, Color::White, Color::Black, n_black)
    } else {
        0
    };
    let black_hunt: i32 = if n_white <= 7 {
        hunt_reward(&occ, Color::Black, Color::White, n_white)
    } else {
        0
    };
    let raw: i32 = material + pst + white_hunt - black_hunt;
    if color == Color::White {
        raw
    } else {
        -raw
    }
}

} // verus!
