//! The frame-loop state: the current rotation of the decorative square and the
//! tile data of the map, with the per-tick update and the per-frame list of
//! draw calls.

use vstd::prelude::*;

use crate::tiles::{frame_ops, ops_view, row_ops, cell_ops, DrawOp, OpModel, TileLayer, TileSheet};

verus! {

/// Angles and times are held in fixed point: one unit is a millionth of a
/// radian or of a second. The square turns at exactly 2 radians per second,
/// so one update tick adds `2 * dt` to the rotation.
pub const SUBUNITS: u64 = 1_000_000;

/// The state the frame loop owns: the rotation of the decorative square in
/// microradians, one tile layer, and the tile sheet it indexes into.
pub struct App {
    pub rotation: u64,
    pub layer: TileLayer,
    pub sheet: TileSheet,
}

impl App {
    pub open spec fn wf(self) -> bool {
        &&& self.layer.wf()
        &&& self.sheet.wf()
    }

    /// The draw calls of one frame of this state: the same in every frame,
    /// whatever the rotation, since only the decorative square is rotated.
    pub open spec fn frame(self) -> Seq<OpModel> {
        frame_ops(self.layer@, self.sheet)
    }

    /// A fresh state starts unrotated. The layer and the sheet are accepted
    /// exactly when they satisfy their invariants.
    pub fn new(layer: TileLayer, sheet: TileSheet) -> (r: Option<App>)
        ensures
            r is Some <==> layer.wf() && sheet.wf(),
            r matches Some(a) ==> a.rotation == 0 && a.layer == layer && a.sheet == sheet
                && a.wf(),
    {
        if layer.is_wf() && sheet.is_wf() {
            Some(App { rotation: 0, layer, sheet })
        } else {
            None
        }
    }

    /// One update tick: `dt` microseconds have passed, and the rotation grows
    /// by exactly `2 * dt` microradians; nothing else changes.
    pub fn update(&mut self, dt: u64)
        requires
            old(self).rotation + 2 * dt <= u64::MAX,
        ensures
            final(self).rotation == old(self).rotation + 2 * dt,
            final(self).layer == old(self).layer,
            final(self).sheet == old(self).sheet,
    {
        self.rotation = self.rotation + 2 * dt;
    }

    /// One render pass over the tile grid: the returned draw calls are exactly
    /// the frame's, row-major, one per non-zero cell, none for an empty cell.
    pub fn render(&self) -> (ops: Vec<DrawOp>)
        requires
            self.wf(),
        ensures
            ops_view(ops@) == self.frame(),
    {
        let nrows = self.layer.rows();
        let mut ops: Vec<DrawOp> = Vec::new();
        let mut yy: usize = 0;
        proof {
            assert(self.layer@.take(0) =~= Seq::<Seq<u32>>::empty());
            assert(ops_view(ops@) =~= Seq::<OpModel>::empty());
        }
        while yy < nrows
            invariant
                self.wf(),
                nrows == self.layer@.len(),
                yy <= nrows,
                ops_view(ops@) == frame_ops(self.layer@.take(yy as int), self.sheet),
            decreases nrows - yy,
        {
            let rlen = self.layer.row_len(yy);
            let mut xx: usize = 0;
            proof {
                assert(self.layer@[yy as int].take(0) =~= Seq::<u32>::empty());
                assert(frame_ops(self.layer@.take(yy as int), self.sheet)
                    + row_ops(self.layer@[yy as int].take(0), yy as int, self.sheet)
                    =~= frame_ops(self.layer@.take(yy as int), self.sheet));
            }
            while xx < rlen
                invariant
                    self.wf(),
                    nrows == self.layer@.len(),
                    yy < nrows,
                    rlen == self.layer@[yy as int].len(),
                    xx <= rlen,
                    ops_view(ops@) == frame_ops(self.layer@.take(yy as int), self.sheet)
                        + row_ops(self.layer@[yy as int].take(xx as int), yy as int, self.sheet),
                decreases rlen - xx,
            {
                let ghost row = self.layer@[yy as int];
                let t = self.layer.tile_at(yy, xx);
                if t != 0 {
                    match self.sheet.source_rect(t) {
                        Some(p) => {
                            let tw: u64 = self.sheet.tile_width as u64;
                            let th: u64 = self.sheet.tile_height as u64;
                            proof {
                                assert((xx as u64) * tw <= 0xFFFF_FFFF * 0xFFFF_FFFF)
                                    by (nonlinear_arith)
                                    requires xx <= 0xFFFF_FFFF && tw <= 0xFFFF_FFFF;
                                assert((yy as u64) * th <= 0xFFFF_FFFF * 0xFFFF_FFFF)
                                    by (nonlinear_arith)
                                    requires yy <= 0xFFFF_FFFF && th <= 0xFFFF_FFFF;
                            }
                            let op = DrawOp {
                                src_x: p.0,
                                src_y: p.1,
                                src_w: self.sheet.tile_width,
                                src_h: self.sheet.tile_height,
                                dest_x: (xx as u64) * tw,
                                dest_y: (yy as u64) * th,
                            };
                            ops.push(op);
                            proof {
                                lemma_row_take_step(row, yy as int, self.sheet, xx as int);
                                assert(ops_view(ops@)
                                    =~= frame_ops(self.layer@.take(yy as int), self.sheet)
                                    + row_ops(row.take(xx as int), yy as int, self.sheet)
                                    + cell_ops(row[xx as int], xx as int, yy as int, self.sheet));
                            }
                        },
                        None => {
                            proof {
                                assert(false);
                            }
                        },
                    }
                } else {
                    proof {
                        lemma_row_take_step(row, yy as int, self.sheet, xx as int);
                        assert(cell_ops(row[xx as int], xx as int, yy as int, self.sheet)
                            =~= Seq::<OpModel>::empty());
                        assert(ops_view(ops@)
                            =~= frame_ops(self.layer@.take(yy as int), self.sheet)
                            + row_ops(row.take(xx as int), yy as int, self.sheet));
                    }
                }
                xx = xx + 1;
            }
            proof {
                assert(self.layer@[yy as int].take(rlen as int) =~= self.layer@[yy as int]);
                lemma_frame_take_step(self.layer@, self.sheet, yy as int);
            }
            yy = yy + 1;
        }
        proof {
            assert(self.layer@.take(nrows as int) =~= self.layer@);
        }
        ops
    }
}

/// Adding one cell to a row prefix appends that cell's draw calls.
proof fn lemma_row_take_step(row: Seq<u32>, yy: int, s: TileSheet, xx: int)
    requires
        0 <= xx < row.len(),
    ensures
        row_ops(row.take(xx + 1), yy, s)
            == row_ops(row.take(xx), yy, s) + cell_ops(row[xx], xx, yy, s),
{
    assert(row.take(xx + 1).drop_last() =~= row.take(xx));
    assert(row.take(xx + 1).last() == row[xx]);
}

/// Adding one row to a frame prefix appends that row's draw calls.
proof fn lemma_frame_take_step(tiles: Seq<Seq<u32>>, s: TileSheet, yy: int)
    requires
        0 <= yy < tiles.len(),
    ensures
        frame_ops(tiles.take(yy + 1), s)
            == frame_ops(tiles.take(yy), s) + row_ops(tiles[yy], yy, s),
{
    assert(tiles.take(yy + 1).drop_last() =~= tiles.take(yy));
    assert(tiles.take(yy + 1).last() == tiles[yy]);
}

/// The tile grid is never rotated: two states over the same layer and sheet
/// render the same frame, whatever their rotations.
pub proof fn lemma_frame_ignores_rotation(a: App, b: App)
    requires
        a.layer == b.layer,
        a.sheet == b.sheet,
    ensures
        a.frame() == b.frame(),
{
}

} // verus!
