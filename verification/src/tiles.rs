//! Tile layers, tile sheets, and the arithmetic of one frame: which cells are
//! drawn, which source rectangle of the sheet each one reads, and where on the
//! screen it lands.

use vstd::prelude::*;

verus! {

/// The mathematical meaning of one draw call: the top-left corner and size of
/// the source rectangle read from the tile sheet, and the screen position the
/// tile is drawn at.
pub ghost struct OpModel {
    pub src_x: int,
    pub src_y: int,
    pub src_w: int,
    pub src_h: int,
    pub dest_x: int,
    pub dest_y: int,
}

/// One draw of a tile-sheet cell, as executable data. Coordinates are `u64`
/// so that every product of two 32-bit quantities fits without overflow.
#[derive(Clone, Copy, Debug, PartialEq, Eq, Structural)]
pub struct DrawOp {
    pub src_x: u64,
    pub src_y: u64,
    pub src_w: u32,
    pub src_h: u32,
    pub dest_x: u64,
    pub dest_y: u64,
}

impl View for DrawOp {
    type V = OpModel;

    open spec fn view(&self) -> OpModel {
        OpModel {
            src_x: self.src_x as int,
            src_y: self.src_y as int,
            src_w: self.src_w as int,
            src_h: self.src_h as int,
            dest_x: self.dest_x as int,
            dest_y: self.dest_y as int,
        }
    }
}

pub open spec fn ops_view(ops: Seq<DrawOp>) -> Seq<OpModel> {
    ops.map_values(|o: DrawOp| o@)
}

/// A tile sheet: one image of `sheet_width` pixels across, cut into tiles of
/// `tile_width` by `tile_height` pixels. The sheet width is an exact multiple
/// of the tile width, so the number of columns is their quotient.
#[derive(Clone, Copy, Debug, PartialEq, Eq, Structural)]
pub struct TileSheet {
    pub sheet_width: u32,
    pub tile_width: u32,
    pub tile_height: u32,
}

impl TileSheet {
    pub open spec fn wf(self) -> bool {
        &&& self.tile_width > 0
        &&& self.tile_height > 0
        &&& self.sheet_width > 0
        &&& self.sheet_width % self.tile_width == 0
    }

    /// How many tiles stand in one row of the sheet.
    pub open spec fn spec_cols(self) -> int {
        self.sheet_width as int / self.tile_width as int
    }

    /// Accepts the dimensions only when they satisfy the sheet invariant:
    /// positive tile sizes and a sheet width that is a multiple of the tile
    /// width.
    pub fn new(sheet_width: u32, tile_width: u32, tile_height: u32) -> (r: Option<TileSheet>)
        ensures
            r matches Some(s) ==> s == (TileSheet { sheet_width, tile_width, tile_height })
                && s.wf(),
            r is None <==> !(TileSheet { sheet_width, tile_width, tile_height }).wf(),
    {
        if tile_width > 0 && tile_height > 0 && sheet_width > 0 && sheet_width % tile_width == 0 {
            Some(TileSheet { sheet_width, tile_width, tile_height })
        } else {
            None
        }
    }

    /// Decides the sheet invariant.
    pub fn is_wf(&self) -> (b: bool)
        ensures
            b == self.wf(),
    {
        self.tile_width > 0 && self.tile_height > 0 && self.sheet_width > 0
            && self.sheet_width % self.tile_width == 0
    }

    pub fn cols(&self) -> (c: u32)
        requires
            self.wf(),
        ensures
            c as int == self.spec_cols(),
            c >= 1,
    {
        proof {
            assert(self.sheet_width as int / self.tile_width as int >= 1) by (nonlinear_arith)
                requires
                    self.sheet_width > 0,
                    self.tile_width > 0,
                    self.sheet_width % self.tile_width == 0;
        }
        self.sheet_width / self.tile_width
    }

    /// The top-left corner of the source rectangle for tile index `t`: index 0
    /// means an empty cell and names no rectangle; a positive index `t` names
    /// sheet tile `t - 1`, found column-first in rows of `spec_cols()` tiles.
    pub fn source_rect(&self, t: u32) -> (r: Option<(u64, u64)>)
        requires
            self.wf(),
        ensures
            t == 0 ==> r is None,
            t > 0 ==> (r matches Some(p)
                && p.0 == ((t as int - 1) % self.spec_cols()) * self.tile_width as int
                && p.1 == ((t as int - 1) / self.spec_cols()) * self.tile_height as int),
    {
        if t == 0 {
            return None;
        }
        let cols: u64 = self.cols() as u64;
        let i: u64 = (t - 1) as u64;
        let tw: u64 = self.tile_width as u64;
        let th: u64 = self.tile_height as u64;
        proof {
            assert((i % cols) * tw <= 0xFFFF_FFFF * 0xFFFF_FFFF) by (nonlinear_arith)
                requires i % cols <= 0xFFFF_FFFF && tw <= 0xFFFF_FFFF;
            assert((i / cols) * th <= 0xFFFF_FFFF * 0xFFFF_FFFF) by (nonlinear_arith)
                requires i / cols <= 0xFFFF_FFFF && th <= 0xFFFF_FFFF;
        }
        Some(((i % cols) * tw, (i / cols) * th))
    }
}

pub open spec fn grid_view(rows: Seq<Vec<u32>>) -> Seq<Seq<u32>> {
    rows.map_values(|row: Vec<u32>| row@)
}

/// One drawable plane of the map: rows of one-based tile indices, row-major.
/// Index 0 is the empty cell.
#[derive(Debug)]
pub struct TileLayer {
    tiles: Vec<Vec<u32>>,
}

impl View for TileLayer {
    type V = Seq<Seq<u32>>;

    closed spec fn view(&self) -> Seq<Seq<u32>> {
        grid_view(self.tiles@)
    }
}

/// Every dimension fits in 32 bits, so that each screen coordinate is a
/// product of two 32-bit quantities.
pub open spec fn grid_wf(g: Seq<Seq<u32>>) -> bool {
    &&& g.len() <= 0xFFFF_FFFF
    &&& forall|i: int| 0 <= i < g.len() ==> #[trigger] g[i].len() <= 0xFFFF_FFFF
}

impl TileLayer {
    pub open spec fn wf(self) -> bool {
        grid_wf(self@)
    }

    /// Accepts the grid only when its row count and every row length fit in
    /// 32 bits; the accepted layer holds exactly the given tile indices.
    pub fn new(tiles: Vec<Vec<u32>>) -> (r: Option<TileLayer>)
        ensures
            r matches Some(l) ==> l@ == grid_view(tiles@) && l.wf(),
            r is None <==> !grid_wf(grid_view(tiles@)),
    {
        let l = TileLayer { tiles };
        if l.is_wf() {
            Some(l)
        } else {
            None
        }
    }

    /// Decides the layer bounds invariant.
    pub fn is_wf(&self) -> (b: bool)
        ensures
            b == self.wf(),
    {
        if self.tiles.len() > 0xFFFF_FFFFusize {
            return false;
        }
        let mut i: usize = 0;
        while i < self.tiles.len()
            invariant
                i <= self.tiles@.len(),
                forall|j: int| 0 <= j < i ==> #[trigger] grid_view(self.tiles@)[j].len() <= 0xFFFF_FFFF,
            decreases self.tiles@.len() - i,
        {
            if self.tiles[i].len() > 0xFFFF_FFFFusize {
                proof {
                    assert(grid_view(self.tiles@)[i as int] == self.tiles@[i as int]@);
                }
                return false;
            }
            i = i + 1;
        }
        true
    }

    pub fn rows(&self) -> (n: usize)
        ensures
            n == self@.len(),
    {
        self.tiles.len()
    }

    pub fn row_len(&self, yy: usize) -> (n: usize)
        requires
            yy < self@.len(),
        ensures
            n == self@[yy as int].len(),
    {
        self.tiles[yy].len()
    }

    pub fn tile_at(&self, yy: usize, xx: usize) -> (t: u32)
        requires
            yy < self@.len(),
            xx < self@[yy as int].len(),
        ensures
            t == self@[yy as int][xx as int],
    {
        self.tiles[yy][xx]
    }
}

/// The draw call for tile index `t` at cell `(xx, yy)`: the source rectangle
/// is read at `(((t-1) mod cols) * tile_width, ((t-1) div cols) * tile_height)`
/// and the tile lands on screen at `(xx * tile_width, yy * tile_height)`.
pub open spec fn op_for(t: u32, xx: int, yy: int, s: TileSheet) -> OpModel {
    OpModel {
        src_x: ((t as int - 1) % s.spec_cols()) * s.tile_width as int,
        src_y: ((t as int - 1) / s.spec_cols()) * s.tile_height as int,
        src_w: s.tile_width as int,
        src_h: s.tile_height as int,
        dest_x: xx * s.tile_width as int,
        dest_y: yy * s.tile_height as int,
    }
}

/// What cell `(xx, yy)` contributes to a frame: nothing when its tile index is
/// 0, and exactly one draw call otherwise.
pub open spec fn cell_ops(t: u32, xx: int, yy: int, s: TileSheet) -> Seq<OpModel> {
    if t == 0 {
        Seq::empty()
    } else {
        seq![op_for(t, xx, yy, s)]
    }
}

/// The draw calls of row `yy`, cells in order of their column index.
pub open spec fn row_ops(row: Seq<u32>, yy: int, s: TileSheet) -> Seq<OpModel>
    decreases row.len(),
{
    if row.len() == 0 {
        Seq::empty()
    } else {
        row_ops(row.drop_last(), yy, s) + cell_ops(row.last(), row.len() - 1, yy, s)
    }
}

/// The draw calls of one whole frame: rows in order, row-major.
pub open spec fn frame_ops(tiles: Seq<Seq<u32>>, s: TileSheet) -> Seq<OpModel>
    decreases tiles.len(),
{
    if tiles.len() == 0 {
        Seq::empty()
    } else {
        frame_ops(tiles.drop_last(), s) + row_ops(tiles.last(), tiles.len() - 1, s)
    }
}

/// Whether `op` is the draw call of some non-zero cell of row `yy`.
pub open spec fn op_from_row(row: Seq<u32>, yy: int, s: TileSheet, op: OpModel) -> bool {
    exists|xx: int| 0 <= xx < row.len() && row[xx] != 0 && op == op_for(row[xx], xx, yy, s)
}

/// Whether `op` is the draw call of some non-zero cell of the grid.
pub open spec fn op_from_grid(tiles: Seq<Seq<u32>>, s: TileSheet, op: OpModel) -> bool {
    exists|yy: int| 0 <= yy < tiles.len() && op_from_row(#[trigger] tiles[yy], yy, s, op)
}

/// Whether a draw call lands on the screen cell `(xx, yy)`.
pub open spec fn at_cell(op: OpModel, xx: int, yy: int, s: TileSheet) -> bool {
    op.dest_x == xx * s.tile_width as int && op.dest_y == yy * s.tile_height as int
}

proof fn lemma_row_ops_from_cells(row: Seq<u32>, yy: int, s: TileSheet)
    ensures
        forall|k: int| 0 <= k < row_ops(row, yy, s).len()
            ==> op_from_row(row, yy, s, #[trigger] row_ops(row, yy, s)[k]),
    decreases row.len(),
{
    if row.len() > 0 {
        let prefix = row.drop_last();
        let a = row_ops(prefix, yy, s);
        lemma_row_ops_from_cells(prefix, yy, s);
        assert forall|k: int| 0 <= k < row_ops(row, yy, s).len()
            implies op_from_row(row, yy, s, #[trigger] row_ops(row, yy, s)[k]) by {
            let op = row_ops(row, yy, s)[k];
            if k < a.len() {
                assert(op == a[k]);
                let xx = choose|xx: int| 0 <= xx < prefix.len() && prefix[xx] != 0
                    && a[k] == op_for(prefix[xx], xx, yy, s);
                assert(row[xx] == prefix[xx]);
                assert(row[xx] != 0 && op == op_for(row[xx], xx, yy, s));
            } else {
                assert(row.last() != 0);
                assert(op == op_for(row[row.len() - 1], row.len() - 1, yy, s));
            }
        }
    }
}

/// Every draw call of a frame is the draw call of some non-zero cell of the
/// grid: the render step draws nothing else, and skips every empty cell.
pub proof fn lemma_frame_ops_from_cells(tiles: Seq<Seq<u32>>, s: TileSheet)
    ensures
        forall|k: int| 0 <= k < frame_ops(tiles, s).len()
            ==> op_from_grid(tiles, s, #[trigger] frame_ops(tiles, s)[k]),
    decreases tiles.len(),
{
    if tiles.len() > 0 {
        let prefix = tiles.drop_last();
        let a = frame_ops(prefix, s);
        let last_y = tiles.len() - 1;
        lemma_frame_ops_from_cells(prefix, s);
        lemma_row_ops_from_cells(tiles.last(), last_y, s);
        assert forall|k: int| 0 <= k < frame_ops(tiles, s).len()
            implies op_from_grid(tiles, s, #[trigger] frame_ops(tiles, s)[k]) by {
            let op = frame_ops(tiles, s)[k];
            if k < a.len() {
                assert(op == a[k]);
                let yy = choose|yy: int| 0 <= yy < prefix.len() && op_from_row(prefix[yy], yy, s, a[k]);
                assert(tiles[yy] == prefix[yy]);
                assert(op_from_row(tiles[yy], yy, s, op));
            } else {
                assert(op == row_ops(tiles.last(), last_y, s)[k - a.len()]);
                assert(op_from_row(tiles[last_y], last_y, s, op));
            }
        }
    }
}

proof fn lemma_row_cell_drawn(row: Seq<u32>, yy: int, s: TileSheet, xx: int)
    requires
        0 <= xx < row.len(),
        row[xx] != 0,
    ensures
        row_ops(row, yy, s).contains(op_for(row[xx], xx, yy, s)),
    decreases row.len(),
{
    let target = op_for(row[xx], xx, yy, s);
    let a = row_ops(row.drop_last(), yy, s);
    if xx == row.len() - 1 {
        assert(row_ops(row, yy, s)[a.len() as int] == target);
    } else {
        let prefix = row.drop_last();
        assert(prefix[xx] == row[xx]);
        lemma_row_cell_drawn(prefix, yy, s, xx);
        let i = choose|i: int| 0 <= i < a.len() && a[i] == target;
        assert(row_ops(row, yy, s)[i] == target);
    }
}

/// Every non-zero cell `(xx, yy)` of the grid is drawn, and with the exact
/// draw call of `op_for`: the source rectangle read from the sheet starts at
/// `(((t-1) mod cols) * tile_width, ((t-1) div cols) * tile_height)` and the
/// tile lands at `(xx * tile_width, yy * tile_height)`.
pub proof fn lemma_nonzero_cell_drawn(tiles: Seq<Seq<u32>>, s: TileSheet, xx: int, yy: int)
    requires
        0 <= yy < tiles.len(),
        0 <= xx < tiles[yy].len(),
        tiles[yy][xx] != 0,
    ensures
        frame_ops(tiles, s).contains(op_for(tiles[yy][xx], xx, yy, s)),
    decreases tiles.len(),
{
    let target = op_for(tiles[yy][xx], xx, yy, s);
    let a = frame_ops(tiles.drop_last(), s);
    if yy == tiles.len() - 1 {
        lemma_row_cell_drawn(tiles[yy], yy, s, xx);
        let i = choose|i: int| 0 <= i < row_ops(tiles[yy], yy, s).len()
            && row_ops(tiles[yy], yy, s)[i] == target;
        assert(frame_ops(tiles, s)[a.len() + i] == target);
    } else {
        let prefix = tiles.drop_last();
        assert(prefix[yy] == tiles[yy]);
        lemma_nonzero_cell_drawn(prefix, s, xx, yy);
        let i = choose|i: int| 0 <= i < a.len() && a[i] == target;
        assert(frame_ops(tiles, s)[i] == target);
    }
}

/// An empty cell is never drawn at: when cell `(xx, yy)` holds tile index 0,
/// no draw call of the frame lands at screen position
/// `(xx * tile_width, yy * tile_height)`.
pub proof fn lemma_empty_cell_not_drawn(tiles: Seq<Seq<u32>>, s: TileSheet, xx: int, yy: int)
    requires
        s.wf(),
        0 <= yy < tiles.len(),
        0 <= xx < tiles[yy].len(),
        tiles[yy][xx] == 0,
    ensures
        forall|k: int| 0 <= k < frame_ops(tiles, s).len()
            ==> !at_cell(#[trigger] frame_ops(tiles, s)[k], xx, yy, s),
{
    lemma_frame_ops_from_cells(tiles, s);
    assert forall|k: int| 0 <= k < frame_ops(tiles, s).len()
        implies !at_cell(#[trigger] frame_ops(tiles, s)[k], xx, yy, s) by {
        let op = frame_ops(tiles, s)[k];
        if at_cell(op, xx, yy, s) {
            let oy = choose|oy: int| 0 <= oy < tiles.len() && op_from_row(#[trigger] tiles[oy], oy, s, op);
            let ox = choose|ox: int| 0 <= ox < tiles[oy].len() && tiles[oy][ox] != 0
                && op == op_for(tiles[oy][ox], ox, oy, s);
            assert(ox == xx) by (nonlinear_arith)
                requires
                    ox * s.tile_width as int == xx * s.tile_width as int,
                    s.tile_width > 0;
            assert(oy == yy) by (nonlinear_arith)
                requires
                    oy * s.tile_height as int == yy * s.tile_height as int,
                    s.tile_height > 0;
            assert(false);
        }
    }
}

} // verus!
