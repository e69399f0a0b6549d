//! The board materializer: every grid cell gets a ground tile, and a cell whose
//! noise sample lies above the tree threshold may also get a tree, when an
//! independent draw succeeds.

use crate::field::NoiseField;
use crate::random::{draw_in_range, draw_ratio};
use vstd::prelude::*;

verus! {

/// Columns of the game board.
pub const BOARD_COLS: usize = 48;

/// Rows of the game board.
pub const BOARD_ROWS: usize = 48;

/// A cell is eligible for a tree when its sample is above this value
/// (`0.2` in millionths).
pub const TREE_THRESHOLD: i64 = 200_000;

/// Numerator of the chance that an eligible cell grows a tree.
pub const TREE_CHANCE_NUMERATOR: u32 = 7;

/// Denominator of the chance that an eligible cell grows a tree.
pub const TREE_CHANCE_DENOMINATOR: u32 = 10;

/// Smallest tree yaw, in milliradians: the integers `m` with
/// `-pi <= m / 1000 < pi` are exactly those from this bound to `YAW_MAX_MRAD`.
pub const YAW_MIN_MRAD: i32 = -3141;

/// Largest tree yaw, in milliradians.
pub const YAW_MAX_MRAD: i32 = 3141;

/// What a placed object is.
#[derive(Clone, Copy, Debug, PartialEq, Eq, Structural)]
pub enum Kind {
    Tile,
    Tree,
}

/// An object to place on the ground plane at `(x, z) = (col, row)`, turned
/// about the vertical axis by `yaw_mrad` milliradians. Every placement is
/// terrain.
#[derive(Clone, Copy, Debug, PartialEq, Eq, Structural)]
pub struct Placement {
    pub kind: Kind,
    pub col: usize,
    pub row: usize,
    pub yaw_mrad: i32,
}

/// The random outcome for one cell: whether its tree draw succeeded, and the
/// yaw the tree gets.
#[derive(Clone, Copy, Debug, PartialEq, Eq, Structural)]
pub struct CellDraw {
    pub grows: bool,
    pub yaw_mrad: i32,
}

/// The probability `numerator / denominator` that an eligible cell grows a tree.
pub struct TreeChance {
    numerator: u32,
    denominator: u32,
}

impl TreeChance {
    pub closed spec fn spec_numerator(&self) -> nat {
        self.numerator as nat
    }

    pub closed spec fn spec_denominator(&self) -> nat {
        self.denominator as nat
    }

    /// The ratio is a probability.
    pub open spec fn wf(&self) -> bool {
        0 < self.spec_denominator() && self.spec_numerator() <= self.spec_denominator()
    }

    /// The chance `numerator / denominator`; `None` unless
    /// `0 < denominator` and `numerator <= denominator`.
    pub fn from_ratio(numerator: u32, denominator: u32) -> (r: Option<TreeChance>)
        ensures
            r.is_some() <==> 0 < denominator && numerator <= denominator,
            r matches Some(c) ==> c.wf() && c.spec_numerator() == numerator
                && c.spec_denominator() == denominator,
    {
        if 0 < denominator && numerator <= denominator {
            Some(TreeChance { numerator, denominator })
        } else {
            None
        }
    }

    pub fn numerator(&self) -> (r: u32)
        ensures
            r == self.spec_numerator(),
    {
        self.numerator
    }

    pub fn denominator(&self) -> (r: u32)
        ensures
            r == self.spec_denominator(),
    {
        self.denominator
    }
}

/// `(col, row)` lies on the field's grid.
pub open spec fn in_grid(field: &NoiseField, col: int, row: int) -> bool {
    0 <= col < field.spec_cols() && 0 <= row < field.spec_rows()
}

/// The cell's sample lies above the threshold.
pub open spec fn eligible(field: &NoiseField, threshold: i64, col: int, row: int) -> bool {
    field.sample(col, row) > threshold
}

/// The draws hold one entry per cell of the field.
pub open spec fn draws_fit(field: &NoiseField, draws: Seq<Seq<CellDraw>>) -> bool {
    &&& draws.len() == field.spec_cols()
    &&& forall|c: int| 0 <= c < field.spec_cols() ==> #[trigger] draws[c].len() == field.spec_rows()
}

/// The cell grows a tree.
pub open spec fn has_tree(field: &NoiseField, threshold: i64, draws: Seq<Seq<CellDraw>>, col: int, row: int) -> bool {
    eligible(field, threshold, col, row) && draws[col][row].grows
}

/// What one cell emits: its tile, then its tree if it has one.
pub open spec fn cell_objects(field: &NoiseField, threshold: i64, draws: Seq<Seq<CellDraw>>, col: int, row: int) -> Seq<Placement> {
    let tile = Placement { kind: Kind::Tile, col: col as usize, row: row as usize, yaw_mrad: 0 };
    if has_tree(field, threshold, draws, col, row) {
        let tree = Placement {
            kind: Kind::Tree,
            col: col as usize,
            row: row as usize,
            yaw_mrad: draws[col][row].yaw_mrad,
        };
        seq![tile, tree]
    } else {
        seq![tile]
    }
}

/// What the first `n` cells of column `col` emit.
pub open spec fn column_objects(field: &NoiseField, threshold: i64, draws: Seq<Seq<CellDraw>>, col: int, n: nat) -> Seq<Placement>
    decreases n,
{
    if n == 0 {
        Seq::empty()
    } else {
        column_objects(field, threshold, draws, col, (n - 1) as nat) + cell_objects(field, threshold, draws, col, n - 1)
    }
}

/// What the first `n` columns emit.
pub open spec fn columns_objects(field: &NoiseField, threshold: i64, draws: Seq<Seq<CellDraw>>, n: nat) -> Seq<Placement>
    decreases n,
{
    if n == 0 {
        Seq::empty()
    } else {
        columns_objects(field, threshold, draws, (n - 1) as nat)
            + column_objects(field, threshold, draws, n - 1, field.spec_rows())
    }
}

/// Everything a board emits, walking columns, and rows within a column.
pub open spec fn board_objects(field: &NoiseField, threshold: i64, draws: Seq<Seq<CellDraw>>) -> Seq<Placement> {
    columns_objects(field, threshold, draws, field.spec_cols())
}

/// How many objects of `kind` stand at `(col, row)`.
pub open spec fn count_at(s: Seq<Placement>, kind: Kind, col: int, row: int) -> nat
    decreases s.len(),
{
    if s.len() == 0 {
        0
    } else {
        let p = s.last();
        count_at(s.drop_last(), kind, col, row) + if p.kind == kind && p.col as int == col && p.row as int == row {
            1nat
        } else {
            0nat
        }
    }
}

/// How many objects of `kind` there are.
pub open spec fn count_kind(s: Seq<Placement>, kind: Kind) -> nat
    decreases s.len(),
{
    if s.len() == 0 {
        0
    } else {
        count_kind(s.drop_last(), kind) + if s.last().kind == kind {
            1nat
        } else {
            0nat
        }
    }
}

/// Every tree's yaw lies in `[-pi, pi)`.
pub open spec fn tree_yaws_in_range(s: Seq<Placement>) -> bool {
    forall|i: int| 0 <= i < s.len() && (#[trigger] s[i]).kind == Kind::Tree
        ==> YAW_MIN_MRAD <= s[i].yaw_mrad <= YAW_MAX_MRAD
}

/// Every draw's yaw lies in `[-pi, pi)`.
pub open spec fn draw_yaws_in_range(field: &NoiseField, draws: Seq<Seq<CellDraw>>) -> bool {
    forall|c: int, r: int| in_grid(field, c, r)
        ==> YAW_MIN_MRAD <= (#[trigger] draws[c][r]).yaw_mrad <= YAW_MAX_MRAD
}

/// How many objects of `kind` cell `(col, row)` emits.
pub open spec fn cell_count(field: &NoiseField, threshold: i64, draws: Seq<Seq<CellDraw>>, kind: Kind, col: int, row: int) -> nat {
    if kind == Kind::Tile || has_tree(field, threshold, draws, col, row) {
        1
    } else {
        0
    }
}

proof fn lemma_count_add(a: Seq<Placement>, b: Seq<Placement>, kind: Kind, col: int, row: int)
    ensures
        count_at(a + b, kind, col, row) == count_at(a, kind, col, row) + count_at(b, kind, col, row),
        count_kind(a + b, kind) == count_kind(a, kind) + count_kind(b, kind),
    decreases b.len(),
{
    if b.len() == 0 {
        assert(a + b =~= a);
    } else {
        assert((a + b).drop_last() =~= a + b.drop_last());
        lemma_count_add(a, b.drop_last(), kind, col, row);
    }
}

proof fn lemma_yaws_add(a: Seq<Placement>, b: Seq<Placement>)
    requires
        tree_yaws_in_range(a),
        tree_yaws_in_range(b),
    ensures
        tree_yaws_in_range(a + b),
{
    assert forall|i: int| 0 <= i < (a + b).len() && (#[trigger] (a + b)[i]).kind == Kind::Tree implies
        YAW_MIN_MRAD <= (a + b)[i].yaw_mrad <= YAW_MAX_MRAD by {
        if i >= a.len() {
            assert((a + b)[i] == b[i - a.len()]);
        }
    }
}

proof fn lemma_cell(field: &NoiseField, threshold: i64, draws: Seq<Seq<CellDraw>>, col: int, row: int, kind: Kind, c: int, r: int)
    requires
        0 <= col <= usize::MAX,
        0 <= row <= usize::MAX,
    ensures
        count_at(cell_objects(field, threshold, draws, col, row), kind, c, r)
            == if c == col && r == row { cell_count(field, threshold, draws, kind, col, row) } else { 0 },
        count_kind(cell_objects(field, threshold, draws, col, row), kind)
            == cell_count(field, threshold, draws, kind, col, row),
        YAW_MIN_MRAD <= draws[col][row].yaw_mrad <= YAW_MAX_MRAD
            ==> tree_yaws_in_range(cell_objects(field, threshold, draws, col, row)),
{
    let s = cell_objects(field, threshold, draws, col, row);
    let tile = Placement { kind: Kind::Tile, col: col as usize, row: row as usize, yaw_mrad: 0 };
    let one = seq![tile];
    assert(one.drop_last() =~= Seq::<Placement>::empty());
    assert(one.last() == tile);
    assert(tile.col as int == col && tile.row as int == row);
    assert(count_at(one.drop_last(), kind, c, r) == 0);
    assert(count_kind(one.drop_last(), kind) == 0);
    assert(count_at(one, kind, c, r) == if kind == Kind::Tile && c == col && r == row { 1nat } else { 0nat });
    assert(count_kind(one, kind) == if kind == Kind::Tile { 1nat } else { 0nat });
    if has_tree(field, threshold, draws, col, row) {
        assert(s.drop_last() =~= one);
        assert(s.last().kind == Kind::Tree);
    } else {
        assert(s =~= one);
    }
}

proof fn lemma_column(field: &NoiseField, threshold: i64, draws: Seq<Seq<CellDraw>>, col: int, n: nat, kind: Kind, c: int, r: int)
    requires
        field.wf(),
        0 <= col < field.spec_cols(),
        n <= field.spec_rows(),
    ensures
        count_at(column_objects(field, threshold, draws, col, n), kind, c, r)
            == if c == col && 0 <= r < n { cell_count(field, threshold, draws, kind, c, r) } else { 0 },
        count_kind(column_objects(field, threshold, draws, col, n), kind) <= n,
        kind == Kind::Tile ==> count_kind(column_objects(field, threshold, draws, col, n), kind) == n,
        draw_yaws_in_range(field, draws) ==> tree_yaws_in_range(column_objects(field, threshold, draws, col, n)),
        n == 0 ==> column_objects(field, threshold, draws, col, n).len() == 0,
    decreases n,
{
    if n > 0 {
        let m = (n - 1) as nat;
        lemma_column(field, threshold, draws, col, m, kind, c, r);
        lemma_cell(field, threshold, draws, col, m as int, kind, c, r);
        lemma_count_add(
            column_objects(field, threshold, draws, col, m),
            cell_objects(field, threshold, draws, col, m as int),
            kind,
            c,
            r,
        );
        if draw_yaws_in_range(field, draws) {
            assert(in_grid(field, col, m as int));
            lemma_yaws_add(
                column_objects(field, threshold, draws, col, m),
                cell_objects(field, threshold, draws, col, m as int),
            );
        }
    }
}

proof fn lemma_columns(field: &NoiseField, threshold: i64, draws: Seq<Seq<CellDraw>>, n: nat, kind: Kind, c: int, r: int)
    requires
        field.wf(),
        n <= field.spec_cols(),
    ensures
        count_at(columns_objects(field, threshold, draws, n), kind, c, r)
            == if 0 <= c < n && 0 <= r < field.spec_rows() { cell_count(field, threshold, draws, kind, c, r) } else { 0 },
        count_kind(columns_objects(field, threshold, draws, n), kind) <= n * field.spec_rows(),
        kind == Kind::Tile ==> count_kind(columns_objects(field, threshold, draws, n), kind) == n * field.spec_rows(),
        draw_yaws_in_range(field, draws) ==> tree_yaws_in_range(columns_objects(field, threshold, draws, n)),
        field.spec_rows() == 0 ==> columns_objects(field, threshold, draws, n).len() == 0,
    decreases n,
{
    if n > 0 {
        let m = (n - 1) as nat;
        let rows = field.spec_rows();
        lemma_columns(field, threshold, draws, m, kind, c, r);
        lemma_column(field, threshold, draws, m as int, rows, kind, c, r);
        lemma_count_add(
            columns_objects(field, threshold, draws, m),
            column_objects(field, threshold, draws, m as int, rows),
            kind,
            c,
            r,
        );
        assert(m * rows + rows == n * rows) by (nonlinear_arith)
            requires
                n == m + 1,
        ;
        if draw_yaws_in_range(field, draws) {
            lemma_yaws_add(
                columns_objects(field, threshold, draws, m),
                column_objects(field, threshold, draws, m as int, rows),
            );
        }
        if rows == 0 {
            lemma_column(field, threshold, draws, m as int, 0, kind, c, r);
        }
    }
}

/// Full coverage: a board emits exactly one tile at each coordinate of its
/// grid and none elsewhere, `cols * rows` tiles in all.
pub proof fn lemma_full_coverage(field: &NoiseField, threshold: i64, draws: Seq<Seq<CellDraw>>)
    requires
        field.wf(),
    ensures
        forall|c: int, r: int| #[trigger] count_at(board_objects(field, threshold, draws), Kind::Tile, c, r)
            == if in_grid(field, c, r) { 1nat } else { 0nat },
        count_kind(board_objects(field, threshold, draws), Kind::Tile) == field.spec_cols() * field.spec_rows(),
{
    assert forall|c: int, r: int| #[trigger] count_at(board_objects(field, threshold, draws), Kind::Tile, c, r)
        == if in_grid(field, c, r) { 1nat } else { 0nat } by {
        lemma_columns(field, threshold, draws, field.spec_cols(), Kind::Tile, c, r);
    }
    lemma_columns(field, threshold, draws, field.spec_cols(), Kind::Tile, 0, 0);
}

/// Tree bound: a board emits at most `cols * rows` trees, at most one per
/// coordinate, and a tree only on a grid cell whose sample is above the
/// threshold and whose draw succeeded.
pub proof fn lemma_tree_bound(field: &NoiseField, threshold: i64, draws: Seq<Seq<CellDraw>>)
    requires
        field.wf(),
    ensures
        count_kind(board_objects(field, threshold, draws), Kind::Tree) <= field.spec_cols() * field.spec_rows(),
        forall|c: int, r: int| #[trigger] count_at(board_objects(field, threshold, draws), Kind::Tree, c, r)
            == if in_grid(field, c, r) && has_tree(field, threshold, draws, c, r) { 1nat } else { 0nat },
        forall|c: int, r: int| count_at(board_objects(field, threshold, draws), Kind::Tree, c, r) > 0
            ==> in_grid(field, c, r) && #[trigger] field.sample(c, r) > threshold,
{
    assert forall|c: int, r: int| #[trigger] count_at(board_objects(field, threshold, draws), Kind::Tree, c, r)
        == if in_grid(field, c, r) && has_tree(field, threshold, draws, c, r) { 1nat } else { 0nat } by {
        lemma_columns(field, threshold, draws, field.spec_cols(), Kind::Tree, c, r);
    }
    lemma_columns(field, threshold, draws, field.spec_cols(), Kind::Tree, 0, 0);
}

/// Rotation range: when every draw's yaw lies in `[-pi, pi)`, so does every
/// emitted tree's.
pub proof fn lemma_tree_yaw_range(field: &NoiseField, threshold: i64, draws: Seq<Seq<CellDraw>>)
    requires
        field.wf(),
        draw_yaws_in_range(field, draws),
    ensures
        tree_yaws_in_range(board_objects(field, threshold, draws)),
{
    lemma_columns(field, threshold, draws, field.spec_cols(), Kind::Tile, 0, 0);
}

/// Zero-size board: a grid without columns or without rows emits nothing.
pub proof fn lemma_zero_size_board(field: &NoiseField, threshold: i64, draws: Seq<Seq<CellDraw>>)
    requires
        field.wf(),
        field.spec_cols() == 0 || field.spec_rows() == 0,
    ensures
        board_objects(field, threshold, draws).len() == 0,
{
    lemma_columns(field, threshold, draws, field.spec_cols(), Kind::Tile, 0, 0);
}

/// The draws of a vector of columns, as sequences.
pub open spec fn draws_view(draws: &Vec<Vec<CellDraw>>) -> Seq<Seq<CellDraw>> {
    draws@.map_values(|d: Vec<CellDraw>| d@)
}

/// A draw that the random source may hand out for cell `(col, row)`: its yaw
/// lies in `[-pi, pi)`, an ineligible cell never grows a tree, a chance of
/// zero never does, and a chance of one always does on an eligible cell.
pub open spec fn draw_allowed(field: &NoiseField, threshold: i64, chance: &TreeChance, col: int, row: int, d: CellDraw) -> bool {
    &&& YAW_MIN_MRAD <= d.yaw_mrad <= YAW_MAX_MRAD
    &&& !eligible(field, threshold, col, row) ==> !d.grows
    &&& chance.spec_numerator() == 0 ==> !d.grows
    &&& eligible(field, threshold, col, row) && chance.spec_numerator() == chance.spec_denominator() ==> d.grows
}

/// Every cell's draw is one the random source may hand out.
pub open spec fn draws_allowed(field: &NoiseField, threshold: i64, chance: &TreeChance, draws: Seq<Seq<CellDraw>>) -> bool {
    &&& draws_fit(field, draws)
    &&& forall|c: int, r: int| in_grid(field, c, r) ==> draw_allowed(field, threshold, chance, c, r, #[trigger] draws[c][r])
}

/// Materializes the board with the given draws: walking columns, and rows
/// within a column, each cell emits its tile, then a tree with the cell's
/// drawn yaw when its sample is above `threshold` and its draw grows a tree.
pub fn materialize_with(field: &NoiseField, threshold: i64, draws: &Vec<Vec<CellDraw>>) -> (r: Vec<Placement>)
    requires
        field.wf(),
        draws_fit(field, draws_view(draws)),
    ensures
        r@ == board_objects(field, threshold, draws_view(draws)),
{
    let ghost dv = draws_view(draws);
    let cols = field.cols();
    let rows = field.rows();
    let mut out: Vec<Placement> = Vec::new();
    let mut col: usize = 0;
    while col < cols
        invariant
            field.wf(),
            cols == field.spec_cols(),
            rows == field.spec_rows(),
            dv == draws_view(draws),
            draws_fit(field, dv),
            0 <= col <= cols,
            out@ == columns_objects(field, threshold, dv, col as nat),
        decreases cols - col,
    {
        let mut row: usize = 0;
        while row < rows
            invariant
                field.wf(),
                cols == field.spec_cols(),
                rows == field.spec_rows(),
                dv == draws_view(draws),
                draws_fit(field, dv),
                0 <= col < cols,
                0 <= row <= rows,
                out@ == columns_objects(field, threshold, dv, col as nat)
                    + column_objects(field, threshold, dv, col as int, row as nat),
            decreases rows - row,
        {
            let ghost before = out@;
            out.push(Placement { kind: Kind::Tile, col, row, yaw_mrad: 0 });
            assert(dv[col as int] == draws@[col as int]@);
            let d = draws[col][row];
            if field.value_at(col, row) > threshold && d.grows {
                out.push(Placement { kind: Kind::Tree, col, row, yaw_mrad: d.yaw_mrad });
            }
            assert(out@ =~= before + cell_objects(field, threshold, dv, col as int, row as int));
            row = row + 1;
        }
        col = col + 1;
    }
    out
}

/// Draws the random outcome of every cell: an eligible cell grows a tree with
/// probability `chance`, and a growing tree gets a uniform yaw in `[-pi, pi)`;
/// an ineligible cell draws nothing.
pub fn draw_cells(field: &NoiseField, threshold: i64, chance: &TreeChance) -> (r: Vec<Vec<CellDraw>>)
    requires
        field.wf(),
        chance.wf(),
    ensures
        draws_allowed(field, threshold, chance, draws_view(&r)),
{
    let cols = field.cols();
    let rows = field.rows();
    let numerator = chance.numerator();
    let denominator = chance.denominator();
    let mut out: Vec<Vec<CellDraw>> = Vec::new();
    let mut col: usize = 0;
    while col < cols
        invariant
            field.wf(),
            chance.wf(),
            cols == field.spec_cols(),
            rows == field.spec_rows(),
            numerator == chance.spec_numerator(),
            denominator == chance.spec_denominator(),
            0 <= col <= cols,
            out@.len() == col,
            forall|c: int| 0 <= c < col ==> (#[trigger] out@[c])@.len() == rows,
            forall|c: int, r: int| 0 <= c < col && 0 <= r < rows
                ==> draw_allowed(field, threshold, chance, c, r, #[trigger] out@[c]@[r]),
        decreases cols - col,
    {
        let mut column: Vec<CellDraw> = Vec::new();
        let mut row: usize = 0;
        while row < rows
            invariant
                field.wf(),
                chance.wf(),
                cols == field.spec_cols(),
                rows == field.spec_rows(),
                numerator == chance.spec_numerator(),
                denominator == chance.spec_denominator(),
                0 <= col < cols,
                0 <= row <= rows,
                column@.len() == row,
                forall|r: int| 0 <= r < row
                    ==> draw_allowed(field, threshold, chance, col as int, r, #[trigger] column@[r]),
            decreases rows - row,
        {
            let mut d = CellDraw { grows: false, yaw_mrad: 0 };
            if field.value_at(col, row) > threshold && draw_ratio(numerator, denominator) {
                d = CellDraw { grows: true, yaw_mrad: draw_in_range(YAW_MIN_MRAD, YAW_MAX_MRAD + 1) };
            }
            column.push(d);
            row = row + 1;
        }
        out.push(column);
        col = col + 1;
    }
    assert forall|c: int| 0 <= c < field.spec_cols() implies #[trigger] draws_view(&out)[c].len() == field.spec_rows() by {
        assert(draws_view(&out)[c] == out@[c]@);
    }
    assert forall|c: int, r: int| in_grid(field, c, r) implies draw_allowed(
        field, threshold, chance, c, r, #[trigger] draws_view(&out)[c][r]) by {
        assert(draws_view(&out)[c] == out@[c]@);
    }
    out
}

/// Materializes the board with fresh random draws (see `draw_cells`): one tile
/// on every cell, and on each cell whose sample is above `threshold`, a tree
/// with probability `chance` and a uniform yaw in `[-pi, pi)`.
pub fn materialize(field: &NoiseField, threshold: i64, chance: &TreeChance) -> (r: Vec<Placement>)
    requires
        field.wf(),
        chance.wf(),
    ensures
        exists|d: Seq<Seq<CellDraw>>| draws_allowed(field, threshold, chance, d)
            && r@ == board_objects(field, threshold, d),
        forall|c: int, rw: int| #[trigger] count_at(r@, Kind::Tile, c, rw)
            == if in_grid(field, c, rw) { 1nat } else { 0nat },
        count_kind(r@, Kind::Tile) == field.spec_cols() * field.spec_rows(),
        count_kind(r@, Kind::Tree) <= field.spec_cols() * field.spec_rows(),
        forall|c: int, rw: int| #[trigger] count_at(r@, Kind::Tree, c, rw)
            <= if in_grid(field, c, rw) && eligible(field, threshold, c, rw) { 1nat } else { 0nat },
        chance.spec_numerator() == chance.spec_denominator() ==> forall|c: int, rw: int| #[trigger] count_at(r@, Kind::Tree, c, rw)
            == if in_grid(field, c, rw) && eligible(field, threshold, c, rw) { 1nat } else { 0nat },
        chance.spec_numerator() == 0 ==> forall|c: int, rw: int| #[trigger] count_at(r@, Kind::Tree, c, rw) == 0,
        tree_yaws_in_range(r@),
        field.spec_cols() == 0 || field.spec_rows() == 0 ==> r@.len() == 0,
{
    let draws = draw_cells(field, threshold, chance);
    let r = materialize_with(field, threshold, &draws);
    proof {
        let d = draws_view(&draws);
        lemma_full_coverage(field, threshold, d);
        lemma_tree_bound(field, threshold, d);
        lemma_tree_yaw_range(field, threshold, d);
        if field.spec_cols() == 0 || field.spec_rows() == 0 {
            lemma_zero_size_board(field, threshold, d);
        }
        assert forall|c: int, rw: int| #[trigger] count_at(r@, Kind::Tree, c, rw)
            <= if in_grid(field, c, rw) && eligible(field, threshold, c, rw) { 1nat } else { 0nat } by {
            if in_grid(field, c, rw) {
                assert(draw_allowed(field, threshold, chance, c, rw, d[c][rw]));
            }
        }
    }
    r
}

} // verus!
