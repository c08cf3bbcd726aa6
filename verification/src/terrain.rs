use crate::canvas::{Canvas, DrawCommand, Rect, Renderable, Sprite};
use crate::grid::{
    cell_number,
    lemma_cell_number,
    lemma_tile_starts_on_axis,
    lemma_tiles_cover,
    tiles_along,
    tiles_per_axis,
};
use vstd::arithmetic::div_mod::lemma_div_is_ordered;
use vstd::prelude::*;

verus! {

/// A ground texture tiled over the whole target.
#[derive(Clone, Copy, Debug, PartialEq, Eq)]
pub struct Terrain {
    /// The drawable, as last submitted.
    pub sprite: Sprite,
    /// Where the tile sits in its texture.
    pub offset: (i32, i32),
    /// Side of the square tile, in pixels.
    pub tile_size: i32,
}

impl Terrain {
    /// The tile has a side of at least one pixel.
    pub open spec fn wf(&self) -> bool {
        self.tile_size >= 1
    }

    /// The part of the texture that is the tile.
    pub open spec fn tile_rect(&self) -> Rect {
        Rect {
            left: self.offset.0,
            top: self.offset.1,
            width: self.tile_size,
            height: self.tile_size,
        }
    }

    /// Tiles per row of the target: enough to reach past its right edge.
    pub open spec fn columns(&self, size: (u32, u32)) -> int {
        tiles_along(size.0 as int, self.tile_size as int)
    }

    /// Tiles per column of the target: enough to reach past its lower edge.
    pub open spec fn rows(&self, size: (u32, u32)) -> int {
        tiles_along(size.1 as int, self.tile_size as int)
    }

    /// The drawable as submitted for the tile in `column` and `row`.
    pub open spec fn tile(&self, column: int, row: int) -> Sprite {
        Sprite {
            texture: self.sprite.texture,
            texture_rect: self.tile_rect(),
            position: ((column * self.tile_size) as i64, (row * self.tile_size) as i64),
        }
    }

    /// The first `count` submissions of a frame: the tiles column by
    /// column, each column from the top down.
    pub open spec fn tiles_through(&self, size: (u32, u32), count: int) -> Seq<DrawCommand> {
        Seq::new(
            count as nat,
            |number: int|
                DrawCommand::Sprite(self.tile(number / self.rows(size), number % self.rows(size))),
        )
    }

    /// Decides `wf` at run time.
    pub fn is_well_formed(&self) -> (ok: bool)
        ensures
            ok == self.wf(),
    {
        self.tile_size >= 1
    }
}

impl Renderable for Terrain {
    /// The terrain is well formed; the elapsed time plays no part.
    open spec fn renderable(&self, size: (u32, u32), elapsed: i32) -> bool {
        self.wf()
    }

    /// The drawable is left as it was submitted for the last tile.
    open spec fn rendered(&self, size: (u32, u32), elapsed: i32) -> Self {
        Terrain { sprite: self.tile(self.columns(size) - 1, self.rows(size) - 1), ..*self }
    }

    /// One submission per tile of the covering grid.
    open spec fn commands(&self, size: (u32, u32), elapsed: i32) -> Seq<DrawCommand> {
        self.tiles_through(size, self.columns(size) * self.rows(size))
    }

    fn can_render(&self, canvas: &Canvas, elapsed: i32) -> (ok: bool) {
        self.is_well_formed()
    }

    fn render(&mut self, canvas: &mut Canvas, elapsed: i32) {
        let (x_offset, y_offset) = self.offset;
        let frame = Rect {
            left: x_offset,
            top: y_offset,
            width: self.tile_size,
            height: self.tile_size,
        };
        self.sprite.texture_rect = frame;
        let size = canvas.size;

        let tiles_in_x: u64 = tiles_per_axis(size.0, self.tile_size);
        let tiles_in_y: u64 = tiles_per_axis(size.1, self.tile_size);

        let ghost base = canvas.commands@;
        let ghost mut done: int = 0;
        let mut i: u64 = 0;
        while i < tiles_in_x
            invariant
                i <= tiles_in_x,
                tiles_in_x == old(self).columns(size),
                tiles_in_y == old(self).rows(size),
                tiles_in_y >= 1,
                old(self).wf(),
                self.offset == old(self).offset,
                self.tile_size == old(self).tile_size,
                self.sprite.texture == old(self).sprite.texture,
                self.sprite.texture_rect == old(self).tile_rect(),
                i > 0 ==> self.sprite == old(self).tile(i - 1, tiles_in_y - 1),
                canvas.size == size,
                done == cell_number(i as int, 0, tiles_in_y as int),
                canvas.commands@ == base + old(self).tiles_through(size, done),
            decreases tiles_in_x - i,
        {
            let mut j: u64 = 0;
            while j < tiles_in_y
                invariant
                    i < tiles_in_x,
                    j <= tiles_in_y,
                    tiles_in_x == old(self).columns(size),
                    tiles_in_y == old(self).rows(size),
                    old(self).wf(),
                    self.offset == old(self).offset,
                    self.tile_size == old(self).tile_size,
                    self.sprite.texture == old(self).sprite.texture,
                    self.sprite.texture_rect == old(self).tile_rect(),
                    j > 0 ==> self.sprite == old(self).tile(i as int, j - 1),
                    canvas.size == size,
                    done == cell_number(i as int, j as int, tiles_in_y as int),
                    canvas.commands@ == base + old(self).tiles_through(size, done),
                decreases tiles_in_y - j,
            {
                proof {
                    lemma_tile_starts_on_axis(i as int, size.0 as int, self.tile_size as int);
                    lemma_tile_starts_on_axis(j as int, size.1 as int, self.tile_size as int);
                    lemma_cell_number(i as int, j as int, tiles_in_x as int, tiles_in_y as int);
                }
                let new_x: i64 = i as i64 * self.tile_size as i64;
                let new_y: i64 = j as i64 * self.tile_size as i64;
                self.sprite.position = (new_x, new_y);
                canvas.draw(&self.sprite);
                proof {
                    assert(self.sprite == old(self).tile(i as int, j as int));
                    assert(old(self).tiles_through(size, done + 1) =~= old(self).tiles_through(
                        size,
                        done,
                    ).push(DrawCommand::Sprite(self.sprite)));
                    done = done + 1;
                }
                j = j + 1;
            }
            proof {
                lemma_cell_number(
                    i as int,
                    tiles_in_y - 1,
                    tiles_in_x as int,
                    tiles_in_y as int,
                );
            }
            i = i + 1;
        }
        proof {
            lemma_cell_number(
                tiles_in_x - 1,
                tiles_in_y - 1,
                tiles_in_x as int,
                tiles_in_y as int,
            );
        }
    }
}

/// One frame of a well-formed terrain leaves no pixel of the target bare:
/// the tile whose column and row a pixel falls into is among the
/// submissions, and the pixel lies within the square that tile covers.
pub proof fn lemma_terrain_covers_target(
    terrain: Terrain,
    size: (u32, u32),
    elapsed: i32,
    x: u32,
    y: u32,
)
    requires
        terrain.wf(),
        x < size.0,
        y < size.1,
    ensures
        ({
            let column = x as int / terrain.tile_size as int;
            let row = y as int / terrain.tile_size as int;
            let number = cell_number(column, row, terrain.rows(size));
            let tile = terrain.tile(column, row);
            &&& terrain.columns(size) >= 1
            &&& terrain.rows(size) >= 1
            &&& terrain.commands(size, elapsed).len() == terrain.columns(size) * terrain.rows(
                size,
            )
            &&& 0 <= column < terrain.columns(size)
            &&& 0 <= row < terrain.rows(size)
            &&& 0 <= number < terrain.commands(size, elapsed).len()
            &&& terrain.commands(size, elapsed)[number] == DrawCommand::Sprite(tile)
            &&& tile.position.0 <= x < tile.position.0 + terrain.tile_size
            &&& tile.position.1 <= y < tile.position.1 + terrain.tile_size
        }),
{
    let side = terrain.tile_size as int;
    let column = x as int / side;
    let row = y as int / side;
    lemma_tiles_cover(size.0 as int, side);
    lemma_tiles_cover(size.1 as int, side);
    lemma_tiles_cover(x as int, side);
    lemma_tiles_cover(y as int, side);
    lemma_div_is_ordered(x as int, size.0 as int, side);
    lemma_div_is_ordered(y as int, size.1 as int, side);
    lemma_tile_starts_on_axis(column, size.0 as int, side);
    lemma_tile_starts_on_axis(row, size.1 as int, side);
    lemma_cell_number(column, row, terrain.columns(size), terrain.rows(size));
    assert(terrain.columns(size) * terrain.rows(size) >= 1) by (nonlinear_arith)
        requires
            terrain.columns(size) >= 1,
            terrain.rows(size) >= 1,
    ;
    assert((column + 1) * side == column * side + side && (row + 1) * side == row * side + side)
        by (nonlinear_arith);
}

} // verus!
