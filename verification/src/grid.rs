//! The grid: a rectangle of cells with bounded access and a toroidal
//! neighbour count.

use vstd::prelude::*;
use crate::cell::{Cell, next_state};
use crate::generation::{
    Generation, all_dead, is_rectangle, lemma_dead_stays_dead, lemma_lone_cell_dies,
    lemma_origin_counts_across_edges, neighbour_count, next_generation, population, wrap,
};

verus! {

/// A `width` by `height` rectangle of cells, addressed as `(x, y)` with
/// `x < width` and `y < height`.
pub struct Grid {
    fields: Vec<Vec<Cell>>,
    width: usize,
    height: usize,
}

/// `cells` with the cell at `(x, y)` replaced by `c`.
pub open spec fn with_cell(cells: Seq<Seq<Cell>>, x: int, y: int, c: Cell) -> Seq<Seq<Cell>> {
    cells.update(x, cells[x].update(y, c))
}

/// Replacing one cell leaves the shape as it is.
proof fn lemma_with_cell_keeps_shape(
    cells: Seq<Seq<Cell>>,
    width: int,
    height: int,
    x: int,
    y: int,
    c: Cell,
)
    requires
        is_rectangle(cells, width, height),
        0 <= x < width,
        0 <= y < height,
    ensures
        is_rectangle(with_cell(cells, x, y, c), width, height),
{
}

impl View for Grid {
    type V = Seq<Seq<Cell>>;

    /// The cells, column by column: `self@[x][y]` is the cell at `(x, y)`.
    closed spec fn view(&self) -> Seq<Seq<Cell>> {
        Seq::new(self.fields@.len(), |x: int| self.fields@[x]@)
    }
}

impl Grid {
    /// The number of columns.
    pub closed spec fn spec_width(&self) -> usize {
        self.width
    }

    /// The number of cells in each column.
    pub closed spec fn spec_height(&self) -> usize {
        self.height
    }

    /// The storage holds exactly `width` columns of `height` cells.
    pub open spec fn wf(&self) -> bool {
        is_rectangle(self@, self.spec_width() as int, self.spec_height() as int)
    }

    /// The number of columns.
    #[verifier::when_used_as_spec(spec_width)]
    pub fn width(&self) -> (width: usize)
        ensures
            width == self.spec_width(),
    {
        self.width
    }

    /// The number of cells in each column.
    #[verifier::when_used_as_spec(spec_height)]
    pub fn height(&self) -> (height: usize)
        ensures
            height == self.spec_height(),
    {
        self.height
    }

    /// The generation on display.
    pub open spec fn current(&self) -> Generation {
        Seq::new(self@.len(), |x: int| Seq::new(self@[x].len(), |y: int| self@[x][y].is_alive))
    }

    /// The generation staged to go on display with the next step.
    pub open spec fn staged(&self) -> Generation {
        Seq::new(
            self@.len(),
            |x: int| Seq::new(self@[x].len(), |y: int| self@[x][y].is_alive_next),
        )
    }

    /// Builds the grid from a seed: every cell starts with the seed value both
    /// on display and staged.
    pub fn from(width: usize, height: usize, field_values: Vec<Vec<bool>>) -> (grid: Grid)
        requires
            is_rectangle(field_values.deep_view(), width as int, height as int),
        ensures
            grid.wf(),
            grid.width() == width,
            grid.height() == height,
            grid.current() == field_values.deep_view(),
            grid.staged() == field_values.deep_view(),
    {
        let mut fields: Vec<Vec<Cell>> = Vec::new();
        let mut x: usize = 0;
        while x < width
            invariant
                x <= width,
                is_rectangle(field_values.deep_view(), width as int, height as int),
                fields@.len() == x,
                forall|i: int| 0 <= i < x ==> (#[trigger] fields@[i])@.len() == height,
                forall|i: int, j: int|
                    0 <= i < x && 0 <= j < height ==> (#[trigger] fields@[i]@[j]) == (Cell {
                        is_alive: field_values@[i]@[j],
                        is_alive_next: field_values@[i]@[j],
                    }),
            decreases width - x,
        {
            let mut column: Vec<Cell> = Vec::new();
            let mut y: usize = 0;
            assert(field_values.deep_view()[x as int].len() == height);
            while y < height
                invariant
                    y <= height,
                    x < width,
                    field_values@.len() == width,
                    field_values@[x as int]@.len() == height,
                    column@.len() == y,
                    forall|j: int|
                        0 <= j < y ==> (#[trigger] column@[j]) == (Cell {
                            is_alive: field_values@[x as int]@[j],
                            is_alive_next: field_values@[x as int]@[j],
                        }),
                decreases height - y,
            {
                let is_alive = field_values[x][y];
                column.push(Cell { is_alive, is_alive_next: is_alive });
                y += 1;
            }
            fields.push(column);
            x += 1;
        }
        let grid = Grid { fields, width, height };
        proof {
            assert(grid.current() =~~= field_values.deep_view());
            assert(grid.staged() =~~= field_values.deep_view());
        }
        grid
    }

    /// The cell at `(x, y)`, or nothing where the coordinate lies outside the
    /// grid.
    pub fn get_cell(&self, x: usize, y: usize) -> (cell: Option<&Cell>)
        requires
            self.wf(),
        ensures
            cell is Some <==> x < self.width() && y < self.height(),
            cell matches Some(c) ==> *c == self@[x as int][y as int],
    {
        if x < self.width && y < self.height {
            assert(self@[x as int].len() == self.height);
            return Some(&self.fields[x][y]);
        }
        None
    }

    /// The cell at `(x, y)` for writing, or nothing where the coordinate lies
    /// outside the grid. Whatever is written lands in that cell and in no
    /// other.
    pub fn get_cell_mut(&mut self, x: usize, y: usize) -> (cell: Option<&mut Cell>)
        requires
            old(self).wf(),
        ensures
            cell is Some <==> x < old(self).width() && y < old(self).height(),
            final(self).width() == old(self).width(),
            final(self).height() == old(self).height(),
            match cell {
                Some(c) => {
                    &&& *c == old(self)@[x as int][y as int]
                    &&& final(self)@ == with_cell(old(self)@, x as int, y as int, *final(c))
                },
                None => final(self)@ == old(self)@,
            },
            final(self).wf(),
    {
        if x < self.width && y < self.height {
            assert(self@[x as int].len() == self.height);
            assert forall|c: Cell|
                is_rectangle(
                    #[trigger] with_cell(self@, x as int, y as int, c),
                    self.width as int,
                    self.height as int,
                ) by {
                lemma_with_cell_keeps_shape(
                    self@,
                    self.width as int,
                    self.height as int,
                    x as int,
                    y as int,
                    c,
                );
            }
            return Some(&mut self.fields[x][y]);
        }
        None
    }

    /// Folds a coordinate that lies at most one step outside `0..dim` back
    /// into that range.
    fn get_map_bounds(counter: i128, dim: i128) -> (index: usize)
        requires
            0 < dim <= usize::MAX,
            -1 <= counter <= dim,
        ensures
            index == wrap(counter as int, dim as int),
            index < dim,
    {
        if counter < 0 {
            (counter + dim) as usize
        } else if counter >= dim {
            (counter - dim) as usize
        } else {
            counter as usize
        }
    }

    /// 1 where the cell at `(x, y)` is alive on display, else 0.
    fn population_at(&self, x: usize, y: usize) -> (count: i32)
        requires
            self.wf(),
            x < self.width(),
            y < self.height(),
        ensures
            count == population(self.current(), x as int, y as int),
    {
        assert(self@[x as int].len() == self.height);
        if self.fields[x][y].is_alive {
            1
        } else {
            0
        }
    }

    /// The live neighbours of the cell at `(x, y)`, for any coordinate of the
    /// grid.
    fn neighbours_at(&self, x: usize, y: usize) -> (count: i32)
        requires
            self.wf(),
            x < self.width(),
            y < self.height(),
        ensures
            count == neighbour_count(self.current(), x as int, y as int),
            0 <= count <= 8,
    {
        let width: i128 = self.width as i128;
        let height: i128 = self.height as i128;
        let left: usize = Grid::get_map_bounds(x as i128 - 1, width);
        let right: usize = Grid::get_map_bounds(x as i128 + 1, width);
        let up: usize = Grid::get_map_bounds(y as i128 - 1, height);
        let down: usize = Grid::get_map_bounds(y as i128 + 1, height);
        assert(self.current()[x as int].len() == self.height);
        self.population_at(left, up) + self.population_at(left, y) + self.population_at(left, down)
            + self.population_at(x, up) + self.population_at(x, down)
            + self.population_at(right, up) + self.population_at(right, y)
            + self.population_at(right, down)
    }

    /// Counts the live cells, by the generation on display, among the eight
    /// neighbours of `(x, y)` on the torus. The cell itself is left out.
    pub fn count_living_neighbours(&self, x: i32, y: i32) -> (count: i32)
        requires
            self.wf(),
            0 <= x < self.width(),
            0 <= y < self.height(),
        ensures
            count == neighbour_count(self.current(), x as int, y as int),
            0 <= count <= 8,
    {
        self.neighbours_at(x as usize, y as usize)
    }

    /// `after` is what one step makes of `self`: the same shape, the staged
    /// generation promoted to the display, and its successor staged.
    pub open spec fn steps_to(&self, after: &Grid) -> bool {
        &&& after.wf()
        &&& after.spec_width() == self.spec_width()
        &&& after.spec_height() == self.spec_height()
        &&& after.current() == self.staged()
        &&& after.staged() == next_generation(self.staged())
    }

    /// The first pass of a step: puts the staged generation on display and
    /// leaves the staging as it is.
    fn promote(&mut self)
        requires
            old(self).wf(),
        ensures
            final(self).wf(),
            final(self).spec_width() == old(self).spec_width(),
            final(self).spec_height() == old(self).spec_height(),
            final(self).current() == old(self).staged(),
            final(self).staged() == old(self).staged(),
    {
        let ghost before = self@;
        let width: usize = self.width;
        let height: usize = self.height;
        let mut x: usize = 0;
        while x < width
            invariant
                x <= width,
                width == self.width == old(self).width,
                height == self.height == old(self).height,
                before == old(self)@,
                is_rectangle(before, width as int, height as int),
                self.wf(),
                forall|i: int, j: int|
                    0 <= i < width && 0 <= j < height ==> (#[trigger] self@[i][j]).is_alive_next
                        == before[i][j].is_alive_next,
                forall|i: int, j: int|
                    0 <= i < x && 0 <= j < height ==> (#[trigger] self@[i][j]).is_alive
                        == before[i][j].is_alive_next,
            decreases width - x,
        {
            let mut y: usize = 0;
            while y < height
                invariant
                    y <= height,
                    x < width,
                    width == self.width == old(self).width,
                    height == self.height == old(self).height,
                    is_rectangle(before, width as int, height as int),
                    self.wf(),
                    forall|i: int, j: int|
                        0 <= i < width && 0 <= j < height ==> (#[trigger] self@[i][j]).is_alive_next
                            == before[i][j].is_alive_next,
                    forall|i: int, j: int|
                        0 <= i < x && 0 <= j < height ==> (#[trigger] self@[i][j]).is_alive
                            == before[i][j].is_alive_next,
                    forall|j: int|
                        0 <= j < y ==> (#[trigger] self@[x as int][j]).is_alive
                            == before[x as int][j].is_alive_next,
                decreases height - y,
            {
                if let Some(cell) = self.get_cell_mut(x, y) {
                    cell.is_alive = cell.is_alive_next;
                }
                y += 1;
            }
            x += 1;
        }
        proof {
            assert(self.current() =~~= old(self).staged());
            assert(self.staged() =~~= old(self).staged());
        }
    }

    /// The second pass of a step: stages every cell's next state, each
    /// computed from the generation on display, which the pass leaves as it
    /// is.
    fn stage(&mut self)
        requires
            old(self).wf(),
        ensures
            final(self).wf(),
            final(self).spec_width() == old(self).spec_width(),
            final(self).spec_height() == old(self).spec_height(),
            final(self).current() == old(self).current(),
            final(self).staged() == next_generation(old(self).current()),
    {
        let ghost displayed = self.current();
        let width: usize = self.width;
        let height: usize = self.height;
        proof {
            lemma_generations_shape(*self);
        }
        let mut x: usize = 0;
        while x < width
            invariant
                x <= width,
                width == self.width == old(self).width,
                height == self.height == old(self).height,
                self.wf(),
                is_rectangle(displayed, width as int, height as int),
                self.current() == displayed,
                forall|i: int, j: int|
                    0 <= i < x && 0 <= j < height ==> (#[trigger] self@[i][j]).is_alive_next
                        == next_state(displayed[i][j], neighbour_count(displayed, i, j)),
            decreases width - x,
        {
            let mut y: usize = 0;
            while y < height
                invariant
                    y <= height,
                    x < width,
                    width == self.width == old(self).width,
                    height == self.height == old(self).height,
                    self.wf(),
                    is_rectangle(displayed, width as int, height as int),
                    self.current() == displayed,
                    forall|i: int, j: int|
                        0 <= i < x && 0 <= j < height ==> (#[trigger] self@[i][j]).is_alive_next
                            == next_state(displayed[i][j], neighbour_count(displayed, i, j)),
                    forall|j: int|
                        0 <= j < y ==> (#[trigger] self@[x as int][j]).is_alive_next
                            == next_state(
                            displayed[x as int][j],
                            neighbour_count(displayed, x as int, j),
                        ),
                decreases height - y,
            {
                let count: i32 = self.neighbours_at(x, y);
                if let Some(cell) = self.get_cell_mut(x, y) {
                    cell.calculate_next_round(count);
                }
                assert(self.current() =~~= displayed);
                y += 1;
            }
            x += 1;
        }
        assert(self.staged() =~~= next_generation(displayed));
    }

    /// Advances the grid by one generation, in two passes over the whole grid.
    /// The first pass puts the staged generation on display. The second stages
    /// every cell's next state, each computed from the generation now on
    /// display and from nothing that the pass itself has written.
    pub fn step(&mut self)
        requires
            old(self).wf(),
        ensures
            old(self).steps_to(final(self)),
    {
        self.promote();
        self.stage();
    }
}

/// Both generations of a well-formed grid have the grid's shape.
pub proof fn lemma_generations_shape(grid: Grid)
    requires
        grid.wf(),
    ensures
        is_rectangle(grid.current(), grid.spec_width() as int, grid.spec_height() as int),
        is_rectangle(grid.staged(), grid.spec_width() as int, grid.spec_height() as int),
{
}

/// No spontaneous generation: a step on a grid whose staged generation has no
/// live cell leaves a grid without a live cell, on display and staged.
pub proof fn lemma_step_keeps_dead(before: Grid, after: Grid)
    requires
        before.wf(),
        before.steps_to(&after),
        all_dead(before.staged()),
    ensures
        all_dead(after.current()),
        all_dead(after.staged()),
{
    lemma_generations_shape(before);
    lemma_dead_stays_dead(
        before.staged(),
        before.spec_width() as int,
        before.spec_height() as int,
    );
}

/// Underpopulation: a step stages death for a cell that is the only live
/// cell of the staged generation, wherever it lies, the corners included.
/// Left out are the grids with exactly one side of length 1, on which such a
/// cell is twice its own neighbour and survives.
pub proof fn lemma_step_kills_lone_cell(before: Grid, after: Grid, x: int, y: int)
    requires
        before.wf(),
        before.steps_to(&after),
        before.spec_width() == 1 <==> before.spec_height() == 1,
        0 <= x < before.spec_width(),
        0 <= y < before.spec_height(),
        before.staged()[x][y],
        forall|i: int, j: int|
            0 <= i < before.spec_width() && 0 <= j < before.spec_height() && !(i == x && j == y)
                ==> !(#[trigger] before.staged()[i][j]),
    ensures
        after.current()[x][y],
        !after.staged()[x][y],
{
    lemma_generations_shape(before);
    lemma_lone_cell_dies(
        before.staged(),
        before.spec_width() as int,
        before.spec_height() as int,
        x,
        y,
    );
}

/// Toroidal wrap: a cell alive at the origin is counted by the neighbour
/// count of the far corner and of the far end of either axis.
pub proof fn lemma_origin_is_neighbour_across_edges(grid: Grid)
    requires
        grid.wf(),
        1 <= grid.spec_width(),
        1 <= grid.spec_height(),
        grid.current()[0][0],
    ensures
        neighbour_count(grid.current(), grid.spec_width() - 1, grid.spec_height() - 1) >= 1,
        neighbour_count(grid.current(), grid.spec_width() - 1, 0) >= 1,
        neighbour_count(grid.current(), 0, grid.spec_height() - 1) >= 1,
{
    lemma_generations_shape(grid);
    lemma_origin_counts_across_edges(
        grid.current(),
        grid.spec_width() as int,
        grid.spec_height() as int,
    );
}

/// Two steps in a row work on successive generations: the second step
/// displays the successor of what the first found staged, and stages the
/// successor of that successor.
pub proof fn lemma_two_steps(start: Grid, middle: Grid, end: Grid)
    requires
        start.wf(),
        start.steps_to(&middle),
        middle.steps_to(&end),
    ensures
        end.current() == next_generation(start.staged()),
        end.staged() == next_generation(next_generation(start.staged())),
        end.spec_width() == start.spec_width(),
        end.spec_height() == start.spec_height(),
{
}

} // verus!
