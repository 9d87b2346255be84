//! The neighbor index: one generation of the grid, addressed by coordinate.

use crate::rules::{all_dead, is_live, live_neighbors, next_generation, next_state, transition};
use vstd::prelude::*;

verus! {

/// The number of columns of the standard grid.
pub const GRID_WIDTH: usize = 160;

/// The number of rows of the standard grid.
pub const GRID_HEIGHT: usize = 144;

/// Whether a grid of `width` by `height` cells can be held: every coordinate
/// fits a signed 32-bit integer and the number of cells fits `usize`.
pub open spec fn valid_dimensions(width: usize, height: usize) -> bool {
    width <= i32::MAX && height <= i32::MAX && width * height <= usize::MAX
}

/// The place of the cell `(x, y)` in the row-major order of a grid of the
/// given width.
pub open spec fn slot(width: int, x: int, y: int) -> int {
    y * width + x
}

/// The generation that a row-major sequence of liveness values stands for on a
/// grid of `width` by `height` cells.
pub open spec fn grid(width: int, height: int, liveness: Seq<bool>) -> Map<(int, int), bool> {
    Map::new(
        |c: (int, int)| 0 <= c.0 < width && 0 <= c.1 < height,
        |c: (int, int)| liveness[slot(width, c.0, c.1)],
    )
}

/// Inside a grid every cell has a slot below the number of cells.
pub proof fn lemma_slot_in_range(width: int, height: int, x: int, y: int)
    requires
        0 <= x < width,
        0 <= y < height,
    ensures
        0 <= y * width,
        0 <= slot(width, x, y) < width * height,
{
    assert(0 <= y * width) by (nonlinear_arith)
        requires
            0 <= y,
            0 <= width,
    ;
    assert((y + 1) * width <= height * width) by (nonlinear_arith)
        requires
            y + 1 <= height,
            0 <= width,
    ;
    assert((y + 1) * width == y * width + width) by (nonlinear_arith);
    assert(height * width == width * height) by (nonlinear_arith);
}

/// Two cells of one grid that share a slot are the same cell.
pub proof fn lemma_slot_is_injective(width: int, x1: int, y1: int, x2: int, y2: int)
    requires
        0 <= x1 < width,
        0 <= x2 < width,
        slot(width, x1, y1) == slot(width, x2, y2),
    ensures
        x1 == x2,
        y1 == y2,
{
    assert(y1 == y2) by (nonlinear_arith)
        requires
            0 <= x1 < width,
            0 <= x2 < width,
            y1 * width + x1 == y2 * width + x2,
    ;
}

/// One generation of the grid: the liveness of every cell, found by its
/// coordinate. A coordinate outside the grid is absent from it.
pub struct NeighborIndex {
    width: usize,
    height: usize,
    alive: Vec<bool>,
}

impl View for NeighborIndex {
    type V = Map<(int, int), bool>;

    closed spec fn view(&self) -> Map<(int, int), bool> {
        grid(self.width as int, self.height as int, self.alive@)
    }
}

/// Whether the dimensions are valid, computed without overflow.
pub fn dimensions_fit(width: usize, height: usize) -> (fit: bool)
    ensures
        fit == valid_dimensions(width, height),
{
    if width > i32::MAX as usize || height > i32::MAX as usize {
        return false;
    }
    assert(width * height <= i32::MAX * i32::MAX) by (nonlinear_arith)
        requires
            width <= i32::MAX,
            height <= i32::MAX,
    ;
    let cells: u64 = (width as u64) * (height as u64);
    cells <= usize::MAX as u64
}

impl NeighborIndex {
    #[verifier::type_invariant]
    spec fn well_formed(self) -> bool {
        valid_dimensions(self.width, self.height) && self.alive@.len() == self.width * self.height
    }

    /// The number of columns.
    pub closed spec fn spec_width(self) -> int {
        self.width as int
    }

    /// The number of rows.
    pub closed spec fn spec_height(self) -> int {
        self.height as int
    }

    /// The index holds exactly the coordinates of its grid.
    pub proof fn lemma_domain(self)
        ensures
            forall|x: int, y: int| #[trigger]
                self@.contains_key((x, y)) <==> 0 <= x < self.spec_width() && 0 <= y
                    < self.spec_height(),
    {
    }

    /// A grid of the given dimensions from its liveness values in row-major
    /// order: the cell `(x, y)` takes the value at `y * width + x`. `None`
    /// when the dimensions are not valid or the number of values is not the
    /// number of cells.
    pub fn from_liveness(width: usize, height: usize, liveness: Vec<bool>) -> (index: Option<
        NeighborIndex,
    >)
        ensures
            index.is_some() <==> valid_dimensions(width, height) && liveness@.len() == width
                * height,
            index.is_some() ==> {
                &&& index.unwrap()@ == grid(width as int, height as int, liveness@)
                &&& index.unwrap().spec_width() == width
                &&& index.unwrap().spec_height() == height
            },
    {
        if !dimensions_fit(width, height) {
            return None;
        }
        if liveness.len() != width * height {
            return None;
        }
        Some(NeighborIndex { width, height, alive: liveness })
    }

    /// A grid of the given dimensions in which every cell is dead. `None`
    /// when the dimensions are not valid.
    pub fn new(width: usize, height: usize) -> (index: Option<NeighborIndex>)
        ensures
            index.is_some() <==> valid_dimensions(width, height),
            index.is_some() ==> {
                &&& index.unwrap()@ == grid(
                    width as int,
                    height as int,
                    Seq::new((width * height) as nat, |k: int| false),
                )
                &&& all_dead(index.unwrap()@)
                &&& index.unwrap().spec_width() == width
                &&& index.unwrap().spec_height() == height
            },
    {
        if !dimensions_fit(width, height) {
            return None;
        }
        let cells: usize = width * height;
        let mut alive: Vec<bool> = Vec::new();
        let mut k: usize = 0;
        while k < cells
            invariant
                k <= cells,
                alive@ == Seq::new(k as nat, |j: int| false),
            decreases cells - k,
        {
            alive.push(false);
            assert(alive@ =~= Seq::new((k + 1) as nat, |j: int| false));
            k += 1;
        }
        let index = NeighborIndex { width, height, alive };
        proof {
            assert forall|c: (int, int)| index@.contains_key(c) implies !(#[trigger] index@[c]) by {
                lemma_slot_in_range(width as int, height as int, c.0, c.1);
            }
        }
        Some(index)
    }

    /// The row-major place of a cell of the grid.
    fn position(&self, x: usize, y: usize) -> (at: usize)
        requires
            x < self.width,
            y < self.height,
        ensures
            at == slot(self.width as int, x as int, y as int),
            at < self.alive@.len(),
    {
        proof {
            use_type_invariant(self);
            lemma_slot_in_range(self.width as int, self.height as int, x as int, y as int);
        }
        y * self.width + x
    }

    /// The liveness of the cell at `(x, y)`, or `None` for a coordinate
    /// outside the grid.
    pub fn get(&self, x: i32, y: i32) -> (alive: Option<bool>)
        ensures
            alive == if self@.contains_key((x as int, y as int)) {
                Some(self@[(x as int, y as int)])
            } else {
                None
            },
    {
        if x < 0 || y < 0 {
            return None;
        }
        let column: usize = x as usize;
        let row: usize = y as usize;
        if column >= self.width || row >= self.height {
            return None;
        }
        let at: usize = self.position(column, row);
        Some(self.alive[at])
    }

    /// Whether the cell at `(x, y)` is alive; a coordinate outside the grid
    /// counts as dead.
    pub fn is_alive(&self, x: i32, y: i32) -> (alive: bool)
        ensures
            alive == is_live(self@, x as int, y as int),
    {
        match self.get(x, y) {
            Some(alive) => alive,
            None => false,
        }
    }

    /// Sets the liveness of the cell at `(x, y)` and says whether the grid
    /// holds that coordinate; outside the grid nothing changes.
    pub fn set(&mut self, x: i32, y: i32, alive: bool) -> (held: bool)
        ensures
            held == old(self)@.contains_key((x as int, y as int)),
            final(self)@ == if held {
                old(self)@.insert((x as int, y as int), alive)
            } else {
                old(self)@
            },
            final(self).spec_width() == old(self).spec_width(),
            final(self).spec_height() == old(self).spec_height(),
    {
        if x < 0 || y < 0 {
            return false;
        }
        let column: usize = x as usize;
        let row: usize = y as usize;
        if column >= self.width || row >= self.height {
            return false;
        }
        let at: usize = self.position(column, row);
        let ghost before = self.alive@;
        proof {
            use_type_invariant(&*self);
        }
        self.alive[at] = alive;
        proof {
            let width = self.width as int;
            assert forall|c: (int, int)| 0 <= c.0 < width && 0 <= c.1 < self.height implies (
            #[trigger] self.alive@[slot(width, c.0, c.1)]) == (if c == (x as int, y as int) {
                alive
            } else {
                before[slot(width, c.0, c.1)]
            }) by {
                lemma_slot_in_range(width, self.height as int, c.0, c.1);
                if slot(width, c.0, c.1) == at {
                    lemma_slot_is_injective(width, c.0, c.1, x as int, y as int);
                }
            }
            assert(self@ =~= grid(width, self.height as int, before).insert(
                (x as int, y as int),
                alive,
            ));
        }
        true
    }

    /// Whether the cell at `(x, y)` is alive, for coordinates one step beyond
    /// the 32-bit range too.
    fn alive_at(&self, x: i64, y: i64) -> (alive: bool)
        ensures
            alive == is_live(self@, x as int, y as int),
    {
        proof {
            use_type_invariant(self);
        }
        if x < 0 || y < 0 || x >= self.width as i64 || y >= self.height as i64 {
            return false;
        }
        let at: usize = self.position(x as usize, y as usize);
        self.alive[at]
    }

    /// The number of live cells among the eight Moore neighbours of `(x, y)`.
    /// Neighbours outside the grid count as dead: the grid does not wrap
    /// around.
    pub fn live_neighbors(&self, x: i32, y: i32) -> (count: u8)
        ensures
            count == live_neighbors(self@, x as int, y as int),
            count <= 8,
    {
        let column: i64 = x as i64;
        let row: i64 = y as i64;
        let mut count: u8 = 0;
        if self.alive_at(column - 1, row - 1) {
            count += 1;
        }
        if self.alive_at(column, row - 1) {
            count += 1;
        }
        if self.alive_at(column + 1, row - 1) {
            count += 1;
        }
        if self.alive_at(column - 1, row) {
            count += 1;
        }
        if self.alive_at(column + 1, row) {
            count += 1;
        }
        if self.alive_at(column - 1, row + 1) {
            count += 1;
        }
        if self.alive_at(column, row + 1) {
            count += 1;
        }
        if self.alive_at(column + 1, row + 1) {
            count += 1;
        }
        count
    }

    /// The generation that follows this one, in a new index. Every cell is
    /// judged against this index, which stays as it was, so no cell sees the
    /// new state of another.
    pub fn successor(&self) -> (next: NeighborIndex)
        ensures
            next@ == next_generation(self@),
            next.spec_width() == self.spec_width(),
            next.spec_height() == self.spec_height(),
    {
        proof {
            use_type_invariant(self);
        }
        let ghost width = self.width as int;
        let ghost height = self.height as int;
        let mut alive: Vec<bool> = Vec::new();
        let mut y: usize = 0;
        while y < self.height
            invariant
                self.well_formed(),
                width == self.width,
                height == self.height,
                y <= self.height,
                alive@.len() == y * width,
                forall|a: int, b: int|
                    0 <= a < width && 0 <= b < height && #[trigger] slot(width, a, b) < alive@.len()
                        ==> alive@[slot(width, a, b)] == next_state(
                        self@[(a, b)],
                        live_neighbors(self@, a, b),
                    ),
            decreases self.height - y,
        {
            let mut x: usize = 0;
            while x < self.width
                invariant
                    self.well_formed(),
                    width == self.width,
                    height == self.height,
                    y < self.height,
                    x <= self.width,
                    alive@.len() == y * width + x,
                    forall|a: int, b: int|
                        0 <= a < width && 0 <= b < height && #[trigger] slot(width, a, b)
                            < alive@.len() ==> alive@[slot(width, a, b)] == next_state(
                            self@[(a, b)],
                            live_neighbors(self@, a, b),
                        ),
                decreases self.width - x,
            {
                let at: usize = self.position(x, y);
                let neighbors: u8 = self.live_neighbors(x as i32, y as i32);
                let ghost before = alive@;
                alive.push(transition(self.alive[at], neighbors));
                proof {
                    assert forall|a: int, b: int|
                        0 <= a < width && 0 <= b < height && #[trigger] slot(width, a, b)
                            < alive@.len() implies alive@[slot(width, a, b)] == next_state(
                        self@[(a, b)],
                        live_neighbors(self@, a, b),
                    ) by {
                        lemma_slot_in_range(width, height, a, b);
                        if slot(width, a, b) == at {
                            lemma_slot_is_injective(width, a, b, x as int, y as int);
                        } else {
                            assert(alive@[slot(width, a, b)] == before[slot(width, a, b)]);
                        }
                    }
                }
                x += 1;
            }
            proof {
                assert((y + 1) * width == y * width + width) by (nonlinear_arith);
            }
            y += 1;
        }
        proof {
            assert(height * width == width * height) by (nonlinear_arith);
            assert forall|c: (int, int)| 0 <= c.0 < width && 0 <= c.1 < height implies alive@[slot(
                width,
                c.0,
                c.1,
            )] == next_state(self@[c], live_neighbors(self@, c.0, c.1)) by {
                lemma_slot_in_range(width, height, c.0, c.1);
            }
        }
        let next = NeighborIndex { width: self.width, height: self.height, alive };
        proof {
            assert(next@ =~= next_generation(self@));
        }
        next
    }

    /// The number of columns.
    pub fn width(&self) -> (width: usize)
        ensures
            width == self.spec_width(),
            width <= i32::MAX,
    {
        proof {
            use_type_invariant(self);
        }
        self.width
    }

    /// The number of rows.
    pub fn height(&self) -> (height: usize)
        ensures
            height == self.spec_height(),
            height <= i32::MAX,
    {
        proof {
            use_type_invariant(self);
        }
        self.height
    }

    /// The number of cells.
    pub fn len(&self) -> (cells: usize)
        ensures
            cells == self.spec_width() * self.spec_height(),
    {
        proof {
            use_type_invariant(self);
        }
        self.alive.len()
    }
}

} // verus!
