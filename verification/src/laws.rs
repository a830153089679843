//! Symmetry laws of the static evaluator.

use vstd::prelude::*;

use crate::eval::{
    cell_material, cell_nonking_one, cell_pst, center_distance, hunt_term, king_from, king_square,
    kings_distance, material_sum, mirror, nonking_count, pst_sum, spec_evaluate,
};
use crate::types::{Color, GameStatus, opposite, KING};

verus! {

/// The same cell with the piece handed to the other side.
pub open spec fn swap_cell(cell: Option<(u8, Color)>) -> Option<(u8, Color)> {
    match cell {
        None => None,
        Some((p, c)) => Some((p, opposite(c))),
    }
}

/// The position with the colors relabeled: every piece changes color and
/// moves to the rank-mirrored square, so the relabeled side faces exactly
/// the first player's situation.
pub open spec fn color_swapped(occ: Seq<Option<(u8, Color)>>) -> Seq<Option<(u8, Color)>> {
    Seq::new(64, |sq: int| swap_cell(occ[mirror(sq)]))
}

/// At most one king of color `c` stands on the board.
pub open spec fn lone_king(occ: Seq<Option<(u8, Color)>>, c: Color) -> bool {
    forall|i: int, j: int|
        0 <= i < 64 && 0 <= j < 64 && #[trigger] occ[i] == Some((KING, c)) && #[trigger] occ[j]
            == Some((KING, c)) ==> i == j
}

proof fn lemma_swap_cell_pointwise()
    ensures
        forall|cell: Option<(u8, Color)>|
            cell_material(#[trigger] swap_cell(cell)) == -cell_material(cell),
{
}

/// A swapped cell read on a square scores the negation of the unswapped
/// cell read on the mirrored square, with the two king flags exchanged
/// along with the colors.
proof fn lemma_swap_cell_pst_one(cell: Option<(u8, Color)>, sq: int, kw: bool, kb: bool)
    requires
        0 <= sq < 64,
    ensures
        cell_pst(swap_cell(cell), sq, kw, kb) == -cell_pst(cell, mirror(sq), kb, kw),
{
    assert(mirror(mirror(sq)) == sq);
}

/// Material negates under the color relabeling, lower half of the board
/// (whose mirror is the upper half).
#[verifier::rlimit(100)]
proof fn lemma_material_swap_low(occ: Seq<Option<(u8, Color)>>)
    requires
        occ.len() == 64,
    ensures
        material_sum(color_swapped(occ), 32) == -(material_sum(occ, 64) - material_sum(occ, 32)),
{
    lemma_swap_cell_pointwise();
    reveal_with_fuel(material_sum, 34);
}

/// Material negates under the color relabeling, upper half of the board.
#[verifier::rlimit(100)]
proof fn lemma_material_swap_high(occ: Seq<Option<(u8, Color)>>)
    requires
        occ.len() == 64,
    ensures
        material_sum(color_swapped(occ), 64) - material_sum(color_swapped(occ), 32)
            == -material_sum(occ, 32),
{
    lemma_swap_cell_pointwise();
    reveal_with_fuel(material_sum, 34);
}

/// Material negates under the color relabeling.
proof fn lemma_material_swap(occ: Seq<Option<(u8, Color)>>)
    requires
        occ.len() == 64,
    ensures
        material_sum(color_swapped(occ), 64) == -material_sum(occ, 64),
{
    lemma_material_swap_low(occ);
    lemma_material_swap_high(occ);
}

/// A mirrored row boundary: the squares `b..b+8` of the relabeled board
/// are the squares `56-b..64-b` of the unswapped board.
proof fn lemma_mirror_of_row(b: int)
    requires
        0 <= b <= 56,
        b % 8 == 0,
    ensures
        forall|f: int| 0 <= f < 8 ==> #[trigger] mirror(b + f) == 56 - b + f,
{
    assert forall|f: int| 0 <= f < 8 implies #[trigger] mirror(b + f) == 56 - b + f by {
        assert((b + f) / 8 == b / 8 && (b + f) % 8 == f && 8 * (b / 8) == b) by (nonlinear_arith)
            requires
                0 <= b,
                b % 8 == 0,
                0 <= f < 8,
        ;
    }
}

/// One mirrored row of the non-king count, under the relabeling.
#[verifier::rlimit(50)]
proof fn lemma_nonking_swap_block(occ: Seq<Option<(u8, Color)>>, c: Color, b: int)
    requires
        occ.len() == 64,
        0 <= b <= 56,
        b % 8 == 0,
    ensures
        nonking_count(color_swapped(occ), c, b + 8) - nonking_count(color_swapped(occ), c, b)
            == nonking_count(occ, opposite(c), 64 - b) - nonking_count(occ, opposite(c), 56 - b),
{
    let sw = color_swapped(occ);
    lemma_mirror_of_row(b);
    assert(sw[b + 0] == swap_cell(occ[56 - b + 0])) by {
        assert(sw[b + 0] == swap_cell(occ[mirror(b + 0)]));
        assert(mirror(b + 0) == 56 - b + 0);
    }
    assert(cell_nonking_one(sw[b + 0], c) == cell_nonking_one(occ[56 - b + 0], opposite(c)));
    assert(sw[b + 1] == swap_cell(occ[56 - b + 1])) by {
        assert(sw[b + 1] == swap_cell(occ[mirror(b + 1)]));
        assert(mirror(b + 1) == 56 - b + 1);
    }
    assert(cell_nonking_one(sw[b + 1], c) == cell_nonking_one(occ[56 - b + 1], opposite(c)));
    assert(sw[b + 2] == swap_cell(occ[56 - b + 2])) by {
        assert(sw[b + 2] == swap_cell(occ[mirror(b + 2)]));
        assert(mirror(b + 2) == 56 - b + 2);
    }
    assert(cell_nonking_one(sw[b + 2], c) == cell_nonking_one(occ[56 - b + 2], opposite(c)));
    assert(sw[b + 3] == swap_cell(occ[56 - b + 3])) by {
        assert(sw[b + 3] == swap_cell(occ[mirror(b + 3)]));
        assert(mirror(b + 3) == 56 - b + 3);
    }
    assert(cell_nonking_one(sw[b + 3], c) == cell_nonking_one(occ[56 - b + 3], opposite(c)));
    assert(sw[b + 4] == swap_cell(occ[56 - b + 4])) by {
        assert(sw[b + 4] == swap_cell(occ[mirror(b + 4)]));
        assert(mirror(b + 4) == 56 - b + 4);
    }
    assert(cell_nonking_one(sw[b + 4], c) == cell_nonking_one(occ[56 - b + 4], opposite(c)));
    assert(sw[b + 5] == swap_cell(occ[56 - b + 5])) by {
        assert(sw[b + 5] == swap_cell(occ[mirror(b + 5)]));
        assert(mirror(b + 5) == 56 - b + 5);
    }
    assert(cell_nonking_one(sw[b + 5], c) == cell_nonking_one(occ[56 - b + 5], opposite(c)));
    assert(sw[b + 6] == swap_cell(occ[56 - b + 6])) by {
        assert(sw[b + 6] == swap_cell(occ[mirror(b + 6)]));
        assert(mirror(b + 6) == 56 - b + 6);
    }
    assert(cell_nonking_one(sw[b + 6], c) == cell_nonking_one(occ[56 - b + 6], opposite(c)));
    assert(sw[b + 7] == swap_cell(occ[56 - b + 7])) by {
        assert(sw[b + 7] == swap_cell(occ[mirror(b + 7)]));
        assert(mirror(b + 7) == 56 - b + 7);
    }
    assert(cell_nonking_one(sw[b + 7], c) == cell_nonking_one(occ[56 - b + 7], opposite(c)));
    assert(nonking_count(sw, c, b + 1) == nonking_count(sw, c, b + 0) + cell_nonking_one(sw[b + 0], c));
    assert(nonking_count(sw, c, b + 2) == nonking_count(sw, c, b + 1) + cell_nonking_one(sw[b + 1], c));
    assert(nonking_count(sw, c, b + 3) == nonking_count(sw, c, b + 2) + cell_nonking_one(sw[b + 2], c));
    assert(nonking_count(sw, c, b + 4) == nonking_count(sw, c, b + 3) + cell_nonking_one(sw[b + 3], c));
    assert(nonking_count(sw, c, b + 5) == nonking_count(sw, c, b + 4) + cell_nonking_one(sw[b + 4], c));
    assert(nonking_count(sw, c, b + 6) == nonking_count(sw, c, b + 5) + cell_nonking_one(sw[b + 5], c));
    assert(nonking_count(sw, c, b + 7) == nonking_count(sw, c, b + 6) + cell_nonking_one(sw[b + 6], c));
    assert(nonking_count(sw, c, b + 8) == nonking_count(sw, c, b + 7) + cell_nonking_one(sw[b + 7], c));
    assert(nonking_count(occ, opposite(c), 56 - b + 1) == nonking_count(occ, opposite(c), 56 - b + 0) + cell_nonking_one(occ[56 - b + 0], opposite(c)));
    assert(nonking_count(occ, opposite(c), 56 - b + 2) == nonking_count(occ, opposite(c), 56 - b + 1) + cell_nonking_one(occ[56 - b + 1], opposite(c)));
    assert(nonking_count(occ, opposite(c), 56 - b + 3) == nonking_count(occ, opposite(c), 56 - b + 2) + cell_nonking_one(occ[56 - b + 2], opposite(c)));
    assert(nonking_count(occ, opposite(c), 56 - b + 4) == nonking_count(occ, opposite(c), 56 - b + 3) + cell_nonking_one(occ[56 - b + 3], opposite(c)));
    assert(nonking_count(occ, opposite(c), 56 - b + 5) == nonking_count(occ, opposite(c), 56 - b + 4) + cell_nonking_one(occ[56 - b + 4], opposite(c)));
    assert(nonking_count(occ, opposite(c), 56 - b + 6) == nonking_count(occ, opposite(c), 56 - b + 5) + cell_nonking_one(occ[56 - b + 5], opposite(c)));
    assert(nonking_count(occ, opposite(c), 56 - b + 7) == nonking_count(occ, opposite(c), 56 - b + 6) + cell_nonking_one(occ[56 - b + 6], opposite(c)));
    assert(nonking_count(occ, opposite(c), 56 - b + 8) == nonking_count(occ, opposite(c), 56 - b + 7) + cell_nonking_one(occ[56 - b + 7], opposite(c)));
    assert(64 - b == 56 - b + 8);
}

/// The non-king count of one side swaps roles under the relabeling.
proof fn lemma_nonking_swap(occ: Seq<Option<(u8, Color)>>, c: Color)
    requires
        occ.len() == 64,
    ensures
        nonking_count(color_swapped(occ), c, 64) == nonking_count(occ, opposite(c), 64),
{
    lemma_nonking_swap_block(occ, c, 0);
    lemma_nonking_swap_block(occ, c, 8);
    lemma_nonking_swap_block(occ, c, 16);
    lemma_nonking_swap_block(occ, c, 24);
    lemma_nonking_swap_block(occ, c, 32);
    lemma_nonking_swap_block(occ, c, 40);
    lemma_nonking_swap_block(occ, c, 48);
    lemma_nonking_swap_block(occ, c, 56);
}

#[verifier::rlimit(50)]
proof fn lemma_pst_swap_block(occ: Seq<Option<(u8, Color)>>, kw: bool, kb: bool, b: int)
    requires
        occ.len() == 64,
        0 <= b <= 56,
        b % 8 == 0,
    ensures
        pst_sum(color_swapped(occ), kw, kb, b + 8) - pst_sum(color_swapped(occ), kw, kb, b) == -(
        pst_sum(occ, kb, kw, 64 - b) - pst_sum(occ, kb, kw, 56 - b)),
{
    let sw = color_swapped(occ);
    lemma_mirror_of_row(b);
    assert(sw[b + 0] == swap_cell(occ[56 - b + 0])) by {
        assert(sw[b + 0] == swap_cell(occ[mirror(b + 0)]));
        assert(mirror(b + 0) == 56 - b + 0);
    }
    lemma_swap_cell_pst_one(occ[56 - b + 0], b + 0, kw, kb);
    assert(cell_pst(sw[b + 0], b + 0, kw, kb) == -cell_pst(occ[56 - b + 0], 56 - b + 0, kb, kw));
    assert(sw[b + 1] == swap_cell(occ[56 - b + 1])) by {
        assert(sw[b + 1] == swap_cell(occ[mirror(b + 1)]));
        assert(mirror(b + 1) == 56 - b + 1);
    }
    lemma_swap_cell_pst_one(occ[56 - b + 1], b + 1, kw, kb);
    assert(cell_pst(sw[b + 1], b + 1, kw, kb) == -cell_pst(occ[56 - b + 1], 56 - b + 1, kb, kw));
    assert(sw[b + 2] == swap_cell(occ[56 - b + 2])) by {
        assert(sw[b + 2] == swap_cell(occ[mirror(b + 2)]));
        assert(mirror(b + 2) == 56 - b + 2);
    }
    lemma_swap_cell_pst_one(occ[56 - b + 2], b + 2, kw, kb);
    assert(cell_pst(sw[b + 2], b + 2, kw, kb) == -cell_pst(occ[56 - b + 2], 56 - b + 2, kb, kw));
    assert(sw[b + 3] == swap_cell(occ[56 - b + 3])) by {
        assert(sw[b + 3] == swap_cell(occ[mirror(b + 3)]));
        assert(mirror(b + 3) == 56 - b + 3);
    }
    lemma_swap_cell_pst_one(occ[56 - b + 3], b + 3, kw, kb);
    assert(cell_pst(sw[b + 3], b + 3, kw, kb) == -cell_pst(occ[56 - b + 3], 56 - b + 3, kb, kw));
    assert(sw[b + 4] == swap_cell(occ[56 - b + 4])) by {
        assert(sw[b + 4] == swap_cell(occ[mirror(b + 4)]));
        assert(mirror(b + 4) == 56 - b + 4);
    }
    lemma_swap_cell_pst_one(occ[56 - b + 4], b + 4, kw, kb);
    assert(cell_pst(sw[b + 4], b + 4, kw, kb) == -cell_pst(occ[56 - b + 4], 56 - b + 4, kb, kw));
    assert(sw[b + 5] == swap_cell(occ[56 - b + 5])) by {
        assert(sw[b + 5] == swap_cell(occ[mirror(b + 5)]));
        assert(mirror(b + 5) == 56 - b + 5);
    }
    lemma_swap_cell_pst_one(occ[56 - b + 5], b + 5, kw, kb);
    assert(cell_pst(sw[b + 5], b + 5, kw, kb) == -cell_pst(occ[56 - b + 5], 56 - b + 5, kb, kw));
    assert(sw[b + 6] == swap_cell(occ[56 - b + 6])) by {
        assert(sw[b + 6] == swap_cell(occ[mirror(b + 6)]));
        assert(mirror(b + 6) == 56 - b + 6);
    }
    lemma_swap_cell_pst_one(occ[56 - b + 6], b + 6, kw, kb);
    assert(cell_pst(sw[b + 6], b + 6, kw, kb) == -cell_pst(occ[56 - b + 6], 56 - b + 6, kb, kw));
    assert(sw[b + 7] == swap_cell(occ[56 - b + 7])) by {
        assert(sw[b + 7] == swap_cell(occ[mirror(b + 7)]));
        assert(mirror(b + 7) == 56 - b + 7);
    }
    lemma_swap_cell_pst_one(occ[56 - b + 7], b + 7, kw, kb);
    assert(cell_pst(sw[b + 7], b + 7, kw, kb) == -cell_pst(occ[56 - b + 7], 56 - b + 7, kb, kw));
    assert(pst_sum(sw, kw, kb, b + 1) == pst_sum(sw, kw, kb, b + 0) + cell_pst(sw[b + 0], b + 0, kw, kb));
    assert(pst_sum(sw, kw, kb, b + 2) == pst_sum(sw, kw, kb, b + 1) + cell_pst(sw[b + 1], b + 1, kw, kb));
    assert(pst_sum(sw, kw, kb, b + 3) == pst_sum(sw, kw, kb, b + 2) + cell_pst(sw[b + 2], b + 2, kw, kb));
    assert(pst_sum(sw, kw, kb, b + 4) == pst_sum(sw, kw, kb, b + 3) + cell_pst(sw[b + 3], b + 3, kw, kb));
    assert(pst_sum(sw, kw, kb, b + 5) == pst_sum(sw, kw, kb, b + 4) + cell_pst(sw[b + 4], b + 4, kw, kb));
    assert(pst_sum(sw, kw, kb, b + 6) == pst_sum(sw, kw, kb, b + 5) + cell_pst(sw[b + 5], b + 5, kw, kb));
    assert(pst_sum(sw, kw, kb, b + 7) == pst_sum(sw, kw, kb, b + 6) + cell_pst(sw[b + 6], b + 6, kw, kb));
    assert(pst_sum(sw, kw, kb, b + 8) == pst_sum(sw, kw, kb, b + 7) + cell_pst(sw[b + 7], b + 7, kw, kb));
    assert(pst_sum(occ, kb, kw, 56 - b + 1) == pst_sum(occ, kb, kw, 56 - b + 0) + cell_pst(occ[56 - b + 0], 56 - b + 0, kb, kw));
    assert(pst_sum(occ, kb, kw, 56 - b + 2) == pst_sum(occ, kb, kw, 56 - b + 1) + cell_pst(occ[56 - b + 1], 56 - b + 1, kb, kw));
    assert(pst_sum(occ, kb, kw, 56 - b + 3) == pst_sum(occ, kb, kw, 56 - b + 2) + cell_pst(occ[56 - b + 2], 56 - b + 2, kb, kw));
    assert(pst_sum(occ, kb, kw, 56 - b + 4) == pst_sum(occ, kb, kw, 56 - b + 3) + cell_pst(occ[56 - b + 3], 56 - b + 3, kb, kw));
    assert(pst_sum(occ, kb, kw, 56 - b + 5) == pst_sum(occ, kb, kw, 56 - b + 4) + cell_pst(occ[56 - b + 4], 56 - b + 4, kb, kw));
    assert(pst_sum(occ, kb, kw, 56 - b + 6) == pst_sum(occ, kb, kw, 56 - b + 5) + cell_pst(occ[56 - b + 5], 56 - b + 5, kb, kw));
    assert(pst_sum(occ, kb, kw, 56 - b + 7) == pst_sum(occ, kb, kw, 56 - b + 6) + cell_pst(occ[56 - b + 6], 56 - b + 6, kb, kw));
    assert(pst_sum(occ, kb, kw, 56 - b + 8) == pst_sum(occ, kb, kw, 56 - b + 7) + cell_pst(occ[56 - b + 7], 56 - b + 7, kb, kw));
    assert(64 - b == 56 - b + 8);
}

proof fn lemma_pst_swap(occ: Seq<Option<(u8, Color)>>, kw: bool, kb: bool)
    requires
        occ.len() == 64,
    ensures
        pst_sum(color_swapped(occ), kw, kb, 64) == -pst_sum(occ, kb, kw, 64),
{
    lemma_pst_swap_block(occ, kw, kb, 0);
    lemma_pst_swap_block(occ, kw, kb, 8);
    lemma_pst_swap_block(occ, kw, kb, 16);
    lemma_pst_swap_block(occ, kw, kb, 24);
    lemma_pst_swap_block(occ, kw, kb, 32);
    lemma_pst_swap_block(occ, kw, kb, 40);
    lemma_pst_swap_block(occ, kw, kb, 48);
    lemma_pst_swap_block(occ, kw, kb, 56);
}

/// Where the scan from `i` finds no king, none stands from `i` on, and the
/// other way round.
proof fn lemma_king_from_none(occ: Seq<Option<(u8, Color)>>, c: Color, i: int)
    requires
        0 <= i,
    ensures
        king_from(occ, c, i) is None <==> forall|j: int|
            i <= j < 64 ==> occ[j] != Some((KING, c)),
    decreases 64 - i,
{
    if 0 <= i < 64 {
        lemma_king_from_none(occ, c, i + 1);
    }
}

/// Where exactly one king of `c` stands at `j0` past `i`, the scan from `i`
/// finds it.
proof fn lemma_king_from_unique(occ: Seq<Option<(u8, Color)>>, c: Color, i: int, j0: int)
    requires
        0 <= i <= j0 < 64,
        occ[j0] == Some((KING, c)),
        forall|j: int| i <= j < j0 ==> occ[j] != Some((KING, c)),
    ensures
        king_from(occ, c, i) == Some(j0),
    decreases j0 - i,
{
    if i < j0 {
        lemma_king_from_unique(occ, c, i + 1, j0);
    }
}

/// In the relabeled position the king of `c` stands on the mirror of the
/// square the king of the other color held, and is absent exactly when that
/// one was.
proof fn lemma_king_square_swap(occ: Seq<Option<(u8, Color)>>, c: Color)
    requires
        occ.len() == 64,
        lone_king(occ, opposite(c)),
    ensures
        king_square(occ, opposite(c)) is None ==> king_square(color_swapped(occ), c) is None,
        king_square(occ, opposite(c)) matches Some(k) ==> 0 <= k < 64 && king_square(
            color_swapped(occ),
            c,
        ) == Some(mirror(k)),
{
    let sw = color_swapped(occ);
    assert forall|j: int| 0 <= j < 64 implies #[trigger] sw[j] == swap_cell(occ[mirror(j)]) by {}
    match king_square(occ, opposite(c)) {
        None => {
            lemma_king_from_none(occ, opposite(c), 0);
            lemma_king_from_none(sw, c, 0);
            assert forall|j: int| 0 <= j < 64 implies sw[j] != Some((KING, c)) by {
                assert(0 <= mirror(j) < 64);
                assert(occ[mirror(j)] != Some((KING, opposite(c))));
                assert(opposite(opposite(c)) == c);
            }
        },
        Some(k) => {
            crate::eval::lemma_king_from(occ, opposite(c), 0);
            let k2 = mirror(k);
            assert(0 <= k2 < 64);
            assert(mirror(k2) == k);
            assert(sw[k2] == Some((KING, c)));
            assert forall|j: int| 0 <= j < k2 implies sw[j] != Some((KING, c)) by {
                assert(0 <= mirror(j) < 64);
                if occ[mirror(j)] == Some((KING, opposite(c))) {
                    assert(mirror(j) == k);
                    assert(mirror(mirror(j)) == j);
                }
            }
            lemma_king_from_unique(sw, c, 0, k2);
        },
    }
}

/// Center distance does not change under rank mirroring.
proof fn lemma_center_distance_mirror(sq: int)
    requires
        0 <= sq < 64,
    ensures
        center_distance(mirror(sq)) == center_distance(sq),
{
}

/// King distance does not change when both squares are rank-mirrored.
proof fn lemma_kings_distance_mirror(a: int, b: int)
    requires
        0 <= a < 64,
        0 <= b < 64,
    ensures
        kings_distance(mirror(a), mirror(b)) == kings_distance(a, b),
{
    let ra = a / 8;
    let fa = a % 8;
    let rb = b / 8;
    let fb = b % 8;
    assert((8 * (7 - ra) + fa) % 8 == fa && (8 * (7 - ra) + fa) / 8 == 7 - ra) by (nonlinear_arith)
        requires
            0 <= fa < 8,
            0 <= ra <= 7,
    ;
    assert((8 * (7 - rb) + fb) % 8 == fb && (8 * (7 - rb) + fb) / 8 == 7 - rb) by (nonlinear_arith)
        requires
            0 <= fb < 8,
            0 <= rb <= 7,
    ;
}

/// The hunt reward of the relabeled side in the relabeled position equals
/// the reward the unrelabeled side had before.
proof fn lemma_hunt_swap(occ: Seq<Option<(u8, Color)>>, c: Color, n: int)
    requires
        occ.len() == 64,
        lone_king(occ, Color::White),
        lone_king(occ, Color::Black),
    ensures
        hunt_term(color_swapped(occ), opposite(c), n) == hunt_term(occ, c, n),
{
    let sw = color_swapped(occ);
    lemma_king_square_swap(occ, opposite(c));
    lemma_king_square_swap(occ, c);
    assert(opposite(opposite(c)) == c);
    match (king_square(occ, c), king_square(occ, opposite(c))) {
        (Some(k), Some(ok)) => {
            crate::eval::lemma_king_from(occ, c, 0);
            crate::eval::lemma_king_from(occ, opposite(c), 0);
            assert(king_square(sw, opposite(c)) == Some(mirror(k)));
            assert(king_square(sw, c) == Some(mirror(ok)));
            lemma_center_distance_mirror(ok);
            lemma_kings_distance_mirror(k, ok);
        },
        (None, _) => {},
        (_, None) => {},
    }
}

/// Color relabeling symmetry of the evaluator: mirror the board, hand every
/// piece to the other side, and ask for the other color's score, and
/// nothing changes. A pure relabeling cannot favor either player.
pub proof fn lemma_evaluate_color_relabel(
    occ: Seq<Option<(u8, Color)>>,
    status: GameStatus,
    color: Color,
)
    requires
        occ.len() == 64,
        lone_king(occ, Color::White),
        lone_king(occ, Color::Black),
    ensures
        spec_evaluate(color_swapped(occ), status, opposite(color)) == spec_evaluate(
            occ,
            status,
            color,
        ),
{
    if status != GameStatus::Stalemate {
        let sw = color_swapped(occ);
        assert(opposite(opposite(color)) == color);
        lemma_nonking_swap(occ, Color::White);
        lemma_nonking_swap(occ, Color::Black);
        let n_white = nonking_count(occ, Color::White, 64);
        let n_black = nonking_count(occ, Color::Black, 64);
        assert(nonking_count(sw, Color::White, 64) == n_black);
        assert(nonking_count(sw, Color::Black, 64) == n_white);
        lemma_material_swap(occ);
        lemma_pst_swap(occ, n_white > 7, n_black > 7);
        if n_white <= 7 {
            lemma_hunt_swap(occ, Color::Black, n_white);
        }
        if n_black <= 7 {
            lemma_hunt_swap(occ, Color::White, n_black);
        }
        assert(opposite(Color::White) == Color::Black && opposite(Color::Black) == Color::White);
    }
}

/// Zero-sum symmetry of the evaluator: the two perspectives' scores of one
/// position always negate each other, since both are signs of one raw
/// white-positive score.
pub proof fn lemma_evaluate_zero_sum(
    occ: Seq<Option<(u8, Color)>>,
    status: GameStatus,
    color: Color,
)
    ensures
        spec_evaluate(occ, status, color) == -spec_evaluate(occ, status, opposite(color)),
{
}

} // verus!
