//! The screen tile grid: a fixed-size 2D array of tile records, composited
//! cell by cell as a background fill followed by a glyph copy.

use vstd::prelude::*;
use vstd::arithmetic::div_mod::{lemma_fundamental_div_mod, lemma_fundamental_div_mod_converse};
use crate::color::Color;
use crate::draw::{DrawCommand, Rect};
use crate::rich_text::{RichText, flat_tiles};
use crate::sprite_sheet::SpriteSheet;
use crate::tile::{ScreenTile, default_bg, default_fg};

verus! {

/// A grid of `grid_width` by `grid_height` tile records, each cell
/// `tile_width` by `tile_height` pixels on screen. Cell storage is linear;
/// the cell at column `x`, row `y` lives at index `x * grid_height + y`,
/// the column-major-like convention used consistently throughout.
pub struct ScreenGrid {
    pub tiles: Vec<ScreenTile>,
    pub grid_width: u32,
    pub grid_height: u32,
    pub tile_width: u32,
    pub tile_height: u32,
}

impl ScreenGrid {
    /// Well-formedness: the storage holds exactly one record per cell.
    pub open spec fn wf(self) -> bool {
        self.tiles@.len() == self.grid_width as int * self.grid_height as int
    }

    /// Whether `(x, y)` names a cell of the grid.
    pub open spec fn in_bounds(self, x: int, y: int) -> bool {
        0 <= x < self.grid_width as int && 0 <= y < self.grid_height as int
    }

    /// The linear storage index of cell `(x, y)`: the stride is
    /// `grid_height`, matching the storage convention above.
    pub open spec fn spec_tile_index(self, x: int, y: int) -> int {
        x * self.grid_height as int + y
    }

    /// The record stored at cell `(x, y)`.
    pub open spec fn spec_tile_at(self, x: int, y: int) -> ScreenTile {
        self.tiles@[self.spec_tile_index(x, y)]
    }

    /// The destination rectangle of cell `(x, y)` in pixel space.
    pub open spec fn spec_cell_rect(self, x: int, y: int) -> Rect {
        Rect {
            x: (x * self.tile_width as int) as i32,
            y: (y * self.tile_height as int) as i32,
            w: self.tile_width,
            h: self.tile_height,
        }
    }

    /// The background fill issued for cell `(x, y)`.
    pub open spec fn spec_fill_command(self, x: int, y: int) -> DrawCommand {
        DrawCommand::FillRect {
            color: self.spec_tile_at(x, y).bg_color,
            rect: self.spec_cell_rect(x, y),
        }
    }

    /// The glyph copy issued for cell `(x, y)`.
    pub open spec fn spec_copy_command(self, sheet: SpriteSheet, x: int, y: int) -> DrawCommand {
        DrawCommand::CopyTile {
            tint: self.spec_tile_at(x, y).fg_color,
            src: sheet.spec_tile_rect(self.spec_tile_at(x, y).sprite),
            dst: self.spec_cell_rect(x, y),
        }
    }

    /// Every cell's storage index is in range.
    pub proof fn lemma_tile_index_in_range(self, x: int, y: int)
        requires
            self.wf(),
            self.in_bounds(x, y),
        ensures
            0 <= self.spec_tile_index(x, y) < self.tiles@.len(),
    {
        let gw = self.grid_width as int;
        let gh = self.grid_height as int;
        assert(x * gh + y < gw * gh) by (nonlinear_arith)
            requires
                0 <= x < gw,
                0 <= y < gh,
        ;
        assert(x * gh + y >= 0) by (nonlinear_arith)
            requires
                0 <= x,
                0 <= y,
                0 <= gh,
        ;
    }

    /// Distinct cells have distinct storage indices.
    pub proof fn lemma_tile_index_injective(self, x1: int, y1: int, x2: int, y2: int)
        requires
            self.in_bounds(x1, y1),
            self.in_bounds(x2, y2),
            self.spec_tile_index(x1, y1) == self.spec_tile_index(x2, y2),
        ensures
            x1 == x2,
            y1 == y2,
    {
        let gh = self.grid_height as int;
        lemma_fundamental_div_mod_converse(x1 * gh + y1, gh, x1, y1);
        lemma_fundamental_div_mod_converse(x2 * gh + y2, gh, x2, y2);
    }

    /// A grid of the given size with every cell set to the blank default
    /// record.
    pub fn new(grid_width: u32, grid_height: u32, tile_width: u32, tile_height: u32) -> (g:
        ScreenGrid)
        requires
            grid_width as int * grid_height as int <= usize::MAX as int,
        ensures
            g.wf(),
            g.grid_width == grid_width,
            g.grid_height == grid_height,
            g.tile_width == tile_width,
            g.tile_height == tile_height,
            forall|k: int|
                0 <= k < g.tiles@.len() ==> g.tiles@[k] == (ScreenTile {
                    sprite: 0u32,
                    fg_color: default_fg(),
                    bg_color: default_bg(),
                }),
    {
        let count: usize = (grid_width as usize) * (grid_height as usize);
        let mut tiles: Vec<ScreenTile> = Vec::new();
        for i in 0..count
            invariant
                tiles@.len() == i,
                forall|k: int|
                    0 <= k < i ==> tiles@[k] == (ScreenTile {
                        sprite: 0u32,
                        fg_color: default_fg(),
                        bg_color: default_bg(),
                    }),
            decreases count - i,
        {
            tiles.push(ScreenTile::new());
        }
        ScreenGrid { tiles, grid_width, grid_height, tile_width, tile_height }
    }

    /// The storage index of cell `(x, y)`.
    pub fn tile_index(&self, x: u32, y: u32) -> (i: usize)
        requires
            self.wf(),
            self.in_bounds(x as int, y as int),
        ensures
            i == self.spec_tile_index(x as int, y as int),
    {
        // The storage length, a usize, bounds the index computed below.
        let _n: usize = self.tiles.len();
        proof {
            self.lemma_tile_index_in_range(x as int, y as int);
        }
        x as usize * self.grid_height as usize + y as usize
    }

    /// The record of cell `(x, y)`.
    pub fn tile(&self, x: u32, y: u32) -> (t: ScreenTile)
        requires
            self.wf(),
            self.in_bounds(x as int, y as int),
        ensures
            t == self.spec_tile_at(x as int, y as int),
    {
        let i = self.tile_index(x, y);
        proof {
            self.lemma_tile_index_in_range(x as int, y as int);
        }
        self.tiles[i]
    }

    /// Overwrites the record of cell `(x, y)`; no other cell changes.
    pub fn set_tile(&mut self, x: u32, y: u32, t: ScreenTile)
        requires
            old(self).wf(),
            old(self).in_bounds(x as int, y as int),
        ensures
            final(self).wf(),
            final(self).grid_width == old(self).grid_width,
            final(self).grid_height == old(self).grid_height,
            final(self).tile_width == old(self).tile_width,
            final(self).tile_height == old(self).tile_height,
            final(self).tiles@ == old(self).tiles@.update(
                old(self).spec_tile_index(x as int, y as int),
                t,
            ),
    {
        let i = self.tile_index(x, y);
        proof {
            self.lemma_tile_index_in_range(x as int, y as int);
        }
        self.tiles[i] = t;
    }

    /// The draw commands that composite the whole grid, cells in row-major
    /// order. For every cell the background fill stands immediately before
    /// the glyph copy, so a glyph is never occluded by its own cell's fill.
    #[verifier::loop_isolation(false)]
    pub fn draw_commands(&self, sheet: &SpriteSheet) -> (cmds: Vec<DrawCommand>)
        requires
            self.wf(),
            self.grid_width as int * self.tile_width as int <= i32::MAX as int,
            self.grid_height as int * self.tile_height as int <= i32::MAX as int,
            forall|k: int|
                0 <= k < self.tiles@.len() ==> sheet.tile_rect_fits(
                    #[trigger] self.tiles@[k].sprite,
                ),
        ensures
            cmds@.len() == 2 * self.grid_width as int * self.grid_height as int,
            forall|x: int, y: int|
                self.in_bounds(x, y) ==> {
                    &&& cmds@[2 * (y * self.grid_width as int + x)] == #[trigger] self
                        .spec_fill_command(x, y)
                    &&& cmds@[2 * (y * self.grid_width as int + x) + 1] == #[trigger] self
                        .spec_copy_command(*sheet, x, y)
                },
    {
        let gw = self.grid_width;
        let gh = self.grid_height;
        let total: usize = self.tiles.len();
        let mut cmds: Vec<DrawCommand> = Vec::new();
        proof {
            assert(total as int == gw as int * gh as int);
        }
        for k in 0..total
            invariant
                cmds@.len() == 2 * k,
                forall|j: int|
                    0 <= j < k ==> {
                        &&& cmds@[2 * j] == #[trigger] self.spec_fill_command(
                            j % gw as int,
                            j / gw as int,
                        )
                        &&& cmds@[2 * j + 1] == self.spec_copy_command(
                            *sheet,
                            j % gw as int,
                            j / gw as int,
                        )
                    },
            decreases total - k,
        {
            proof {
                let gwi = gw as int;
                let ki = k as int;
                assert(gwi > 0) by (nonlinear_arith)
                    requires
                        0 <= ki < gwi * gh as int,
                        gwi >= 0,
                ;
                lemma_fundamental_div_mod(ki, gwi);
                if ki / gwi >= gh as int {
                    assert(gwi * (ki / gwi) >= gwi * gh as int) by (nonlinear_arith)
                        requires
                            ki / gwi >= gh as int,
                            gwi > 0,
                    ;
                    assert(false);
                }
            }
            let x = k % gw as usize;
            let y = k / gw as usize;
            let xu = x as u32;
            let yu = y as u32;
            proof {
                assert(xu as int * self.tile_width as int <= gw as int * self.tile_width as int)
                    by (nonlinear_arith)
                    requires
                        0 <= xu as int <= gw as int,
                        self.tile_width >= 0,
                ;
                assert(yu as int * self.tile_height as int <= gh as int * self.tile_height as int)
                    by (nonlinear_arith)
                    requires
                        0 <= yu as int <= gh as int,
                        self.tile_height >= 0,
                ;
                self.lemma_tile_index_in_range(xu as int, yu as int);
                assert(sheet.tile_rect_fits(
                    self.tiles@[self.spec_tile_index(xu as int, yu as int)].sprite,
                ));
            }
            let t = self.tile(xu, yu);
            let dst = self.cell_rect(xu, yu);
            cmds.push(DrawCommand::FillRect { color: t.bg_color, rect: dst });
            cmds.push(sheet.char_draw_command(t.sprite, t.fg_color, dst));
        }
        proof {
            assert forall|x: int, y: int| self.in_bounds(x, y) implies {
                &&& cmds@[2 * (y * self.grid_width as int + x)] == self.spec_fill_command(x, y)
                &&& cmds@[2 * (y * self.grid_width as int + x) + 1] == self.spec_copy_command(
                    *sheet,
                    x,
                    y,
                )
            } by {
                let gwi = gw as int;
                let j = y * gwi + x;
                lemma_fundamental_div_mod_converse(j, gwi, y, x);
                assert(0 <= y * gwi + x < gwi * gh as int) by (nonlinear_arith)
                    requires
                        0 <= x < gwi,
                        0 <= y < gh as int,
                ;
            }
            assert(2 * (gw as int * gh as int) == 2 * gw as int * gh as int) by (nonlinear_arith);
        }
        cmds
    }

    /// Flattens `text` under the default palette and writes the run into row
    /// `dst_y`, one record per column starting at `dst_x`. Every other cell
    /// keeps its record.
    #[verifier::loop_isolation(false)]
    pub fn write_text(&mut self, text: RichText, dst_x: u32, dst_y: u32)
        requires
            old(self).wf(),
            (dst_y as int) < old(self).grid_height as int,
            dst_x as int + flat_tiles(text, default_fg(), default_bg()).len() <= old(
                self,
            ).grid_width as int,
        ensures
            final(self).wf(),
            final(self).grid_width == old(self).grid_width,
            final(self).grid_height == old(self).grid_height,
            final(self).tile_width == old(self).tile_width,
            final(self).tile_height == old(self).tile_height,
            forall|i: int|
                0 <= i < flat_tiles(text, default_fg(), default_bg()).len()
                    ==> #[trigger] final(self).spec_tile_at(dst_x + i, dst_y as int) == flat_tiles(
                    text,
                    default_fg(),
                    default_bg(),
                )[i],
            forall|x: int, y: int|
                final(self).in_bounds(x, y) && !(y == dst_y as int && dst_x <= x < dst_x
                    + flat_tiles(text, default_fg(), default_bg()).len())
                    ==> #[trigger] final(self).spec_tile_at(x, y) == old(self).spec_tile_at(x, y),
    {
        let run = text.tiles();
        let n = run.len();
        for i in 0..n
            invariant
                self.wf(),
                self.grid_width == old(self).grid_width,
                self.grid_height == old(self).grid_height,
                self.tile_width == old(self).tile_width,
                self.tile_height == old(self).tile_height,
                n == run@.len(),
                run@ == flat_tiles(text, default_fg(), default_bg()),
                forall|j: int|
                    0 <= j < i ==> #[trigger] self.spec_tile_at(dst_x + j, dst_y as int)
                        == run@[j],
                forall|x: int, y: int|
                    self.in_bounds(x, y) && !(y == dst_y as int && dst_x <= x < dst_x + i)
                        ==> #[trigger] self.spec_tile_at(x, y) == old(self).spec_tile_at(x, y),
            decreases n - i,
        {
            let ghost pre = *self;
            self.set_tile(dst_x + i as u32, dst_y, run[i]);
            proof {
                let wx = dst_x as int + i as int;
                let wi = pre.spec_tile_index(wx, dst_y as int);
                pre.lemma_tile_index_in_range(wx, dst_y as int);
                assert forall|x: int, y: int|
                    self.in_bounds(x, y) && !(x == wx && y == dst_y as int) implies #[trigger] self
                    .spec_tile_at(x, y) == pre.spec_tile_at(x, y) by {
                    pre.lemma_tile_index_in_range(x, y);
                    if pre.spec_tile_index(x, y) == wi {
                        pre.lemma_tile_index_injective(x, y, wx, dst_y as int);
                    }
                }
            }
        }
    }

    /// The destination rectangle of cell `(x, y)` in pixel space.
    pub fn cell_rect(&self, x: u32, y: u32) -> (r: Rect)
        requires
            x as int * self.tile_width as int <= i32::MAX as int,
            y as int * self.tile_height as int <= i32::MAX as int,
        ensures
            r == self.spec_cell_rect(x as int, y as int),
    {
        Rect {
            x: (x * self.tile_width) as i32,
            y: (y * self.tile_height) as i32,
            w: self.tile_width,
            h: self.tile_height,
        }
    }
}

} // verus!
