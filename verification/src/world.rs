use crate::canvas::{Canvas, DrawCommand, Renderable, Sprite};
use crate::grid::{cell_number, lemma_cell_number, lemma_cell_of_number};
use crate::unit::{lemma_rendered_times, Unit};
use std::collections::HashMap;
use vstd::prelude::*;

verus! {

/// Something placed on a cell of the map.
#[derive(Clone, Copy, Debug, PartialEq, Eq)]
pub enum Object {
    Player,
}

/// The key under which the cell in `column` and `row` is found in the
/// object map: the column in the upper 32 bits, the row in the lower.
pub open spec fn cell_key(column: int, row: int) -> int {
    column * 0x1_0000_0000 + row
}

/// Computes `cell_key` on machine integers.
pub fn key_of_cell(column: u32, row: u32) -> (key: u64)
    ensures
        key == cell_key(column as int, row as int),
        key / 0x1_0000_0000 == column,
        key % 0x1_0000_0000 == row,
{
    column as u64 * 0x1_0000_0000 + row as u64
}

/// Whether the origin of every cell of a map of `map_size` cells of side
/// `tile_size` is a representable pixel coordinate.
pub open spec fn grid_fits(map_size: (u32, u32), tile_size: u32) -> bool {
    &&& map_size.0 > 0 ==> (map_size.0 - 1) * tile_size <= u32::MAX
    &&& map_size.1 > 0 ==> (map_size.1 - 1) * tile_size <= u32::MAX
}

/// Decides `grid_fits` at run time.
pub fn check_grid_fits(map_size: (u32, u32), tile_size: u32) -> (ok: bool)
    ensures
        ok == grid_fits(map_size, tile_size),
{
    let limit: u64 = 0xffff_ffff;
    let wide: bool = map_size.0 == 0 || product(map_size.0 - 1, tile_size) <= limit;
    let high: bool = map_size.1 == 0 || product(map_size.1 - 1, tile_size) <= limit;
    wide && high
}

/// The product of two 32-bit numbers, which 64 bits always hold.
fn product(a: u32, b: u32) -> (wide: u64)
    ensures
        wide == a * b,
{
    assert(a * b <= 0xffff_ffff * 0xffff_ffff) by (nonlinear_arith)
        requires
            0 <= a <= 0xffff_ffff,
            0 <= b <= 0xffff_ffff,
    ;
    a as u64 * b as u64
}

/// A grid of ground tiles with objects placed on some of its cells, and the
/// one unit that is drawn for them.
#[derive(Debug)]
pub struct World {
    /// What lies where, by `cell_key`.
    pub objects: HashMap<u64, Object>,
    /// The unit drawn wherever an object lies.
    pub player: Unit,
    /// The ground tile, as last submitted.
    pub default_sprite: Sprite,
    /// Columns and rows of the map.
    pub map_size: (u32, u32),
    /// Side of a cell, in pixels.
    pub tile_size: u32,
}

impl World {
    /// Number of columns of the map.
    pub open spec fn columns(&self) -> int {
        self.map_size.0 as int
    }

    /// Number of rows of the map.
    pub open spec fn rows(&self) -> int {
        self.map_size.1 as int
    }

    /// Number of cells of the map.
    pub open spec fn cells(&self) -> nat {
        (self.columns() * self.rows()) as nat
    }

    /// Whether `key` is the key of a cell of the map.
    pub open spec fn on_map(&self, key: u64) -> bool {
        key / 0x1_0000_0000 < self.columns() && key % 0x1_0000_0000 < self.rows()
    }

    /// The number of the cell that `key` is the key of, the cells being
    /// numbered column by column.
    pub open spec fn key_number(&self, key: u64) -> int {
        cell_number((key / 0x1_0000_0000) as int, (key % 0x1_0000_0000) as int, self.rows())
    }

    /// Every cell's origin is representable and every object lies on a cell
    /// of the map.
    pub open spec fn wf(&self) -> bool {
        &&& grid_fits(self.map_size, self.tile_size)
        &&& forall|key: u64| #[trigger] self.objects@.contains_key(key) ==> self.on_map(key)
    }

    /// Whether an object lies on the cell in `column` and `row`.
    pub open spec fn occupied(&self, column: int, row: int) -> bool {
        self.objects@.contains_key(cell_key(column, row) as u64)
    }

    /// Whether an object lies on the cell with number `cell`, the cells
    /// being numbered column by column.
    pub open spec fn occupied_cell(&self, cell: int) -> bool {
        self.occupied(cell / self.rows(), cell % self.rows())
    }

    /// The ground tile as submitted for the cell in `column` and `row`.
    pub open spec fn background(&self, column: int, row: int) -> Sprite {
        Sprite {
            position: ((column * self.tile_size) as i64, (row * self.tile_size) as i64),
            ..self.default_sprite
        }
    }

    /// How many of the first `count` cells hold an object.
    pub open spec fn occupied_before(&self, count: nat) -> nat
        decreases count,
    {
        if count == 0 {
            0
        } else if self.occupied_cell(count - 1) {
            self.occupied_before((count - 1) as nat) + 1
        } else {
            self.occupied_before((count - 1) as nat)
        }
    }

    /// How often the unit is rendered in one frame: once per cell of the
    /// map that holds an object.
    pub open spec fn unit_renders(&self) -> nat {
        self.occupied_before(self.cells())
    }

    /// What one frame has submitted once the first `count` cells are done:
    /// for each cell in turn its ground tile and then, if an object lies
    /// there, the unit as it stands after one more render.
    pub open spec fn drawn_before(&self, size: (u32, u32), elapsed: i32, count: nat) -> Seq<
        DrawCommand,
    >
        decreases count,
    {
        if count == 0 {
            Seq::empty()
        } else {
            let cell = count - 1;
            let ground = self.drawn_before(size, elapsed, cell as nat).push(
                DrawCommand::Sprite(self.background(cell / self.rows(), cell % self.rows())),
            );
            if self.occupied_cell(cell) {
                ground + self.player.rendered_times(
                    size,
                    elapsed,
                    self.occupied_before(cell as nat),
                ).commands(size, elapsed)
            } else {
                ground
            }
        }
    }

    /// An empty map around `player`, or `None` where a cell's origin would
    /// not be representable.
    pub fn new(player: Unit, default_sprite: Sprite, map_size: (u32, u32), tile_size: u32) -> (world:
        Option<World>)
        ensures
            world is Some <==> grid_fits(map_size, tile_size),
            world matches Some(w) ==> {
                &&& w.objects@ == Map::<u64, Object>::empty()
                &&& w.player == player
                &&& w.default_sprite == default_sprite
                &&& w.map_size == map_size
                &&& w.tile_size == tile_size
                &&& w.wf()
            },
    {
        if check_grid_fits(map_size, tile_size) {
            Some(
                World {
                    objects: HashMap::new(),
                    player: player,
                    default_sprite: default_sprite,
                    map_size: map_size,
                    tile_size: tile_size,
                },
            )
        } else {
            None
        }
    }

    /// Puts `object` on the cell in `column` and `row`, in place of what lay
    /// there. A cell outside the map is refused and nothing changes.
    pub fn place(&mut self, column: u32, row: u32, object: Object) -> (placed: bool)
        ensures
            placed == (column < old(self).columns() && row < old(self).rows()),
            placed ==> final(self).objects@ == old(self).objects@.insert(
                cell_key(column as int, row as int) as u64,
                object,
            ),
            !placed ==> final(self).objects@ == old(self).objects@,
            final(self).player == old(self).player,
            final(self).default_sprite == old(self).default_sprite,
            final(self).map_size == old(self).map_size,
            final(self).tile_size == old(self).tile_size,
            old(self).wf() ==> final(self).wf(),
    {
        if column < self.map_size.0 && row < self.map_size.1 {
            self.objects.insert(key_of_cell(column, row), object);
            true
        } else {
            false
        }
    }

    /// Whether an object lies on the cell in `column` and `row`.
    pub fn is_occupied(&self, column: u32, row: u32) -> (found: bool)
        ensures
            found == self.occupied(column as int, row as int),
    {
        self.objects.contains_key(&key_of_cell(column, row))
    }
}

impl World {
    /// Going on to more cells never loses an object found, and finds at
    /// most one per cell.
    pub proof fn lemma_occupied_before_grows(&self, fewer: nat, more: nat)
        requires
            fewer <= more,
        ensures
            self.occupied_before(fewer) <= self.occupied_before(more) <= self.occupied_before(fewer)
                + (more - fewer),
        decreases more,
    {
        if fewer < more {
            self.lemma_occupied_before_grows(fewer, (more - 1) as nat);
        }
    }

    /// Counts the cells of the map that hold an object.
    pub fn count_unit_renders(&self) -> (count: u64)
        ensures
            count == self.unit_renders(),
    {
        let (x_size, y_size) = self.map_size;
        let mut count: u64 = 0;
        let ghost mut done: nat = 0;
        let mut i: u32 = 0;
        while i < x_size
            invariant
                i <= x_size,
                (x_size, y_size) == self.map_size,
                done == cell_number(i as int, 0, y_size as int),
                count == self.occupied_before(done),
            decreases x_size - i,
        {
            let mut j: u32 = 0;
            while j < y_size
                invariant
                    i < x_size,
                    j <= y_size,
                    (x_size, y_size) == self.map_size,
                    done == cell_number(i as int, j as int, y_size as int),
                    count == self.occupied_before(done),
                decreases y_size - j,
            {
                proof {
                    lemma_cell_number(i as int, j as int, x_size as int, y_size as int);
                    self.lemma_occupied_before_grows(0, done);
                    assert(x_size * y_size <= 0xffff_ffff * 0xffff_ffff) by (nonlinear_arith)
                        requires
                            0 <= x_size <= 0xffff_ffff,
                            0 <= y_size <= 0xffff_ffff,
                    ;
                }
                if self.is_occupied(i, j) {
                    count = count + 1;
                }
                proof {
                    done = done + 1;
                }
                j = j + 1;
            }
            proof {
                if y_size > 0 {
                    lemma_cell_number(i as int, y_size - 1, x_size as int, y_size as int);
                } else {
                    assert(i * y_size == 0 && (i + 1) * y_size == 0) by (nonlinear_arith)
                        requires
                            y_size == 0,
                    ;
                }
            }
            i = i + 1;
        }
        count
    }
}

impl Renderable for World {
    /// Every cell's origin is representable, and the unit can be rendered
    /// once per object on the map.
    open spec fn renderable(&self, size: (u32, u32), elapsed: i32) -> bool {
        &&& grid_fits(self.map_size, self.tile_size)
        &&& self.player.renderable_times(size, elapsed, self.unit_renders())
    }

    /// The unit has been rendered once per object on the map, and the
    /// ground tile is left as it was submitted for the last cell.
    open spec fn rendered(&self, size: (u32, u32), elapsed: i32) -> Self {
        World {
            player: self.player.rendered_times(size, elapsed, self.unit_renders()),
            default_sprite: if self.cells() > 0 {
                self.background(self.columns() - 1, self.rows() - 1)
            } else {
                self.default_sprite
            },
            ..*self
        }
    }

    /// The ground tile of every cell, column by column and each column from
    /// the top down, each followed by the unit where an object lies.
    open spec fn commands(&self, size: (u32, u32), elapsed: i32) -> Seq<DrawCommand> {
        self.drawn_before(size, elapsed, self.cells())
    }

    fn can_render(&self, canvas: &Canvas, elapsed: i32) -> (ok: bool) {
        check_grid_fits(self.map_size, self.tile_size) && self.player.can_render_times(
            canvas,
            elapsed,
            self.count_unit_renders(),
        )
    }

    fn render(&mut self, canvas: &mut Canvas, elapsed: i32) {
        let (x_size, y_size) = self.map_size;
        let ghost size = canvas.size;
        let ghost base = canvas.commands@;
        let ghost mut done: nat = 0;
        let mut i: u32 = 0;
        while i < x_size
            invariant
                i <= x_size,
                (x_size, y_size) == self.map_size,
                old(self).renderable(size, elapsed),
                self.objects == old(self).objects,
                self.map_size == old(self).map_size,
                self.tile_size == old(self).tile_size,
                self.default_sprite.texture == old(self).default_sprite.texture,
                self.default_sprite.texture_rect == old(self).default_sprite.texture_rect,
                done == 0 ==> self.default_sprite == old(self).default_sprite,
                i > 0 && y_size > 0 ==> self.default_sprite == old(self).background(
                    i - 1,
                    y_size - 1,
                ),
                canvas.size == size,
                done == cell_number(i as int, 0, y_size as int),
                self.player == old(self).player.rendered_times(
                    size,
                    elapsed,
                    old(self).occupied_before(done),
                ),
                canvas.commands@ == base + old(self).drawn_before(size, elapsed, done),
            decreases x_size - i,
        {
            let mut j: u32 = 0;
            while j < y_size
                invariant
                    i < x_size,
                    j <= y_size,
                    (x_size, y_size) == self.map_size,
                    old(self).renderable(size, elapsed),
                    self.objects == old(self).objects,
                    self.map_size == old(self).map_size,
                    self.tile_size == old(self).tile_size,
                    self.default_sprite.texture == old(self).default_sprite.texture,
                    self.default_sprite.texture_rect == old(self).default_sprite.texture_rect,
                    done == 0 ==> self.default_sprite == old(self).default_sprite,
                    j > 0 ==> self.default_sprite == old(self).background(i as int, j - 1),
                    j == 0 && i > 0 && y_size > 0 ==> self.default_sprite == old(self).background(
                        i - 1,
                        y_size - 1,
                    ),
                    canvas.size == size,
                    done == cell_number(i as int, j as int, y_size as int),
                    self.player == old(self).player.rendered_times(
                        size,
                        elapsed,
                        old(self).occupied_before(done),
                    ),
                    canvas.commands@ == base + old(self).drawn_before(size, elapsed, done),
                decreases y_size - j,
            {
                proof {
                    lemma_cell_number(i as int, j as int, x_size as int, y_size as int);
                    assert(i * self.tile_size <= (x_size - 1) * self.tile_size && j
                        * self.tile_size <= (y_size - 1) * self.tile_size) by (nonlinear_arith)
                        requires
                            0 <= i <= x_size - 1,
                            0 <= j <= y_size - 1,
                            0 <= self.tile_size,
                    ;
                }
                let new_x: i64 = (i * self.tile_size) as i64;
                let new_y: i64 = (j * self.tile_size) as i64;
                self.default_sprite.position = (new_x, new_y);
                canvas.draw(&self.default_sprite);
                assert(self.default_sprite == old(self).background(i as int, j as int));

                if self.is_occupied(i, j) {
                    proof {
                        old(self).lemma_occupied_before_grows(done + 1, old(self).cells());
                        lemma_rendered_times(
                            old(self).player,
                            size,
                            elapsed,
                            old(self).occupied_before(done),
                            old(self).unit_renders(),
                        );
                    }
                    self.player.render(canvas, elapsed);
                }
                proof {
                    assert(canvas.commands@ =~= base + old(self).drawn_before(
                        size,
                        elapsed,
                        done + 1,
                    ));
                    done = done + 1;
                }
                j = j + 1;
            }
            proof {
                if y_size > 0 {
                    lemma_cell_number(i as int, y_size - 1, x_size as int, y_size as int);
                } else {
                    assert(i * y_size == 0 && (i + 1) * y_size == 0) by (nonlinear_arith)
                        requires
                            y_size == 0,
                    ;
                }
            }
            i = i + 1;
        }
        proof {
            if x_size > 0 && y_size > 0 {
                lemma_cell_number(x_size - 1, y_size - 1, x_size as int, y_size as int);
            } else {
                assert(x_size * y_size == 0) by (nonlinear_arith)
                    requires
                        x_size == 0 || y_size == 0,
                ;
            }
        }
    }
}

impl World {
    /// The keys of the objects that lie on one of the first `count` cells.
    pub open spec fn found_before(&self, count: nat) -> Set<u64> {
        Set::new(
            |key: u64|
                self.objects@.contains_key(key) && self.on_map(key) && self.key_number(key)
                    < count,
        )
    }

    /// The objects found on the first `count` cells are as many as the
    /// cells among them that hold one.
    pub proof fn lemma_found_before(&self, count: nat)
        requires
            count <= self.cells(),
        ensures
            self.found_before(count).finite(),
            self.found_before(count).subset_of(self.objects@.dom()),
            self.found_before(count).len() == self.occupied_before(count),
        decreases count,
    {
        if count == 0 {
            assert(self.found_before(count) =~= Set::<u64>::empty());
        } else {
            let cell = (count - 1) as nat;
            self.lemma_found_before(cell);
            lemma_cell_of_number(cell as int, self.columns(), self.rows());
            let column = cell as int / self.rows();
            let row = cell as int % self.rows();
            let here = cell_key(column, row) as u64;
            assert(here / 0x1_0000_0000 == column && here % 0x1_0000_0000 == row);
            assert forall|key: u64| self.on_map(key) && #[trigger] self.key_number(key)
                == cell implies key == here by {
                lemma_cell_number(
                    (key / 0x1_0000_0000) as int,
                    (key % 0x1_0000_0000) as int,
                    self.columns(),
                    self.rows(),
                );
            }
            if self.occupied_cell(cell as int) {
                assert(self.found_before(count) =~= self.found_before(cell).insert(here));
            } else {
                assert(self.found_before(count) =~= self.found_before(cell));
            }
        }
    }

    /// On a well-formed world the unit is rendered exactly once per object.
    pub proof fn lemma_unit_renders_once_per_object(&self)
        requires
            self.wf(),
        ensures
            self.unit_renders() == self.objects@.dom().len(),
    {
        self.lemma_found_before(self.cells());
        assert(self.objects@.dom().subset_of(self.found_before(self.cells()))) by {
            assert forall|key: u64| self.objects@.dom().contains(key) implies self.found_before(
                self.cells(),
            ).contains(key) by {
                assert(self.objects@.contains_key(key));
                lemma_cell_number(
                    (key / 0x1_0000_0000) as int,
                    (key % 0x1_0000_0000) as int,
                    self.columns(),
                    self.rows(),
                );
            }
        }
        assert(self.found_before(self.cells()) =~= self.objects@.dom());
    }

    /// Where the ground tile of the cell with number `cell` stands among the
    /// submissions of a frame: after the ground tiles of the cells before it
    /// and the units drawn for them.
    pub open spec fn ground_index(&self, cell: nat) -> int {
        (cell + self.occupied_before(cell)) as int
    }

    /// Once the first `count` cells are done, one ground tile per cell and
    /// one unit per object found have been submitted, and they stay where
    /// they are as the frame goes on: the ground tile of a cell stands at
    /// its `ground_index`, and the unit of a cell that holds an object comes
    /// right after it.
    pub proof fn lemma_drawn_before(&self, size: (u32, u32), elapsed: i32, count: nat)
        ensures
            self.drawn_before(size, elapsed, count).len() == count + self.occupied_before(count),
            forall|cell: nat|
                cell < count ==> self.drawn_before(size, elapsed, count)[#[trigger] self.ground_index(
                    cell,
                )] == DrawCommand::Sprite(
                    self.background(cell as int / self.rows(), cell as int % self.rows()),
                ),
            forall|cell: nat|
                cell < count && self.occupied_cell(cell as int) ==> self.drawn_before(
                    size,
                    elapsed,
                    count,
                )[#[trigger] self.ground_index(cell) + 1] == self.player.rendered_times(
                    size,
                    elapsed,
                    self.occupied_before(cell),
                ).commands(size, elapsed)[0],
        decreases count,
    {
        if count > 0 {
            let last = (count - 1) as nat;
            self.lemma_drawn_before(size, elapsed, last);
            let earlier = self.drawn_before(size, elapsed, last);
            let now = self.drawn_before(size, elapsed, count);
            assert forall|cell: nat| cell < count implies now[#[trigger] self.ground_index(cell)]
                == DrawCommand::Sprite(
                self.background(cell as int / self.rows(), cell as int % self.rows()),
            ) by {
                if cell < last {
                    self.lemma_occupied_before_grows(cell + 1, last);
                    assert(now[self.ground_index(cell)] == earlier[self.ground_index(cell)]);
                }
            }
            assert forall|cell: nat| cell < count && self.occupied_cell(cell as int) implies now[#[trigger] self.ground_index(
                cell,
            ) + 1] == self.player.rendered_times(
                size,
                elapsed,
                self.occupied_before(cell),
            ).commands(size, elapsed)[0] by {
                if cell < last {
                    self.lemma_occupied_before_grows(cell + 1, last);
                    assert(now[self.ground_index(cell) + 1] == earlier[self.ground_index(cell)
                        + 1]);
                }
            }
        }
    }
}

/// One frame of a well-formed world submits the ground tile of every cell
/// of the map and renders the unit once per object, whatever the elapsed
/// time: as many submissions as there are cells and objects together.
pub proof fn lemma_frame_draws_every_cell(world: World, size: (u32, u32), elapsed: i32)
    requires
        world.wf(),
    ensures
        world.unit_renders() == world.objects@.dom().len(),
        world.commands(size, elapsed).len() == world.columns() * world.rows()
            + world.objects@.dom().len(),
        world.rendered(size, elapsed).player == world.player.rendered_times(
            size,
            elapsed,
            world.objects@.dom().len(),
        ),
        world.rendered(size, elapsed).wf(),
        forall|cell: nat|
            cell < world.cells() ==> world.commands(size, elapsed)[#[trigger] world.ground_index(
                cell,
            )] == DrawCommand::Sprite(
                world.background(cell as int / world.rows(), cell as int % world.rows()),
            ),
{
    world.lemma_unit_renders_once_per_object();
    world.lemma_drawn_before(size, elapsed, world.cells());
    assert(world.columns() * world.rows() >= 0) by (nonlinear_arith)
        requires
            world.columns() >= 0,
            world.rows() >= 0,
    ;
}

/// With a single object on the map, one frame submits every ground tile and
/// renders the unit exactly once, right after the ground tile of the cell
/// that holds the object.
pub proof fn lemma_single_object_renders_unit_once(
    world: World,
    size: (u32, u32),
    elapsed: i32,
    column: u32,
    row: u32,
)
    requires
        world.wf(),
        world.objects@.dom() == set![cell_key(column as int, row as int) as u64],
    ensures
        column < world.columns(),
        row < world.rows(),
        world.unit_renders() == 1,
        world.commands(size, elapsed).len() == world.columns() * world.rows() + 1,
        world.rendered(size, elapsed).player == world.player.rendered(size, elapsed),
        world.commands(size, elapsed)[cell_number(column as int, row as int, world.rows()) + 1]
            == world.player.commands(size, elapsed)[0],
{
    let key = cell_key(column as int, row as int) as u64;
    assert(world.objects@.contains_key(key));
    assert(key / 0x1_0000_0000 == column && key % 0x1_0000_0000 == row);
    lemma_frame_draws_every_cell(world, size, elapsed);
    assert(world.player.rendered_times(size, elapsed, 1) == world.player.rendered(size, elapsed))
        by {
        reveal_with_fuel(Unit::rendered_times, 2);
    }
    let cell = cell_number(column as int, row as int, world.rows()) as nat;
    lemma_cell_number(column as int, row as int, world.columns(), world.rows());
    world.lemma_drawn_before(size, elapsed, world.cells());
    world.lemma_found_before(cell);
    assert(world.found_before(cell) =~= Set::<u64>::empty()) by {
        assert forall|other: u64| world.found_before(cell).contains(other) implies false by {
            assert(world.objects@.dom().contains(other));
        }
    }
    assert(world.occupied_cell(cell as int));
    assert(world.ground_index(cell) == cell);
}

} // verus!
