//! The state store of the automaton: one record per cell, kept in step with
//! the neighbor index of the same generation.

use crate::index::{
    dimensions_fit, grid, lemma_slot_in_range, lemma_slot_is_injective, slot, valid_dimensions,
    NeighborIndex,
};
use crate::rules::{is_live, next_generation};
use crate::seed::random_liveness;
use vstd::prelude::*;

verus! {

/// One cell of the grid: where it is and whether it is alive.
#[derive(Clone, Copy, Debug, PartialEq, Eq, Structural)]
pub struct Cell {
    pub x: i32,
    pub y: i32,
    pub is_alive: bool,
}

/// Whether `cells` holds one record for each cell of a `width` by `height`
/// grid, in row-major order, each with its own coordinate and with the
/// liveness that `generation` gives it.
pub open spec fn mirrors(
    cells: Seq<Cell>,
    width: int,
    height: int,
    generation: Map<(int, int), bool>,
) -> bool {
    &&& cells.len() == width * height
    &&& forall|x: int, y: int|
        0 <= x < width && 0 <= y < height ==> #[trigger] cells[slot(width, x, y)] == (Cell {
            x: x as i32,
            y: y as i32,
            is_alive: generation[(x, y)],
        })
}

/// The records of the cells of `index`, one for each cell, in row-major order.
pub fn records(index: &NeighborIndex) -> (cells: Vec<Cell>)
    ensures
        mirrors(cells@, index.spec_width(), index.spec_height(), index@),
{
    let width: usize = index.width();
    let height: usize = index.height();
    proof {
        index.lemma_domain();
    }
    let mut cells: Vec<Cell> = Vec::new();
    let mut y: usize = 0;
    while y < height
        invariant
            width == index.spec_width(),
            height == index.spec_height(),
            width <= i32::MAX,
            height <= i32::MAX,
            forall|a: int, b: int| #[trigger]
                index@.contains_key((a, b)) <==> 0 <= a < width && 0 <= b < height,
            y <= height,
            cells@.len() == y * width,
            forall|a: int, b: int|
                0 <= a < width && 0 <= b < height && #[trigger] slot(width as int, a, b)
                    < cells@.len() ==> cells@[slot(width as int, a, b)] == (Cell {
                    x: a as i32,
                    y: b as i32,
                    is_alive: index@[(a, b)],
                }),
        decreases height - y,
    {
        let mut x: usize = 0;
        while x < width
            invariant
                width == index.spec_width(),
                height == index.spec_height(),
                width <= i32::MAX,
                height <= i32::MAX,
                forall|a: int, b: int| #[trigger]
                    index@.contains_key((a, b)) <==> 0 <= a < width && 0 <= b < height,
                y < height,
                x <= width,
                cells@.len() == y * width + x,
                forall|a: int, b: int|
                    0 <= a < width && 0 <= b < height && #[trigger] slot(width as int, a, b)
                        < cells@.len() ==> cells@[slot(width as int, a, b)] == (Cell {
                        x: a as i32,
                        y: b as i32,
                        is_alive: index@[(a, b)],
                    }),
            decreases width - x,
        {
            let is_alive: bool = index.is_alive(x as i32, y as i32);
            let ghost before = cells@;
            cells.push(Cell { x: x as i32, y: y as i32, is_alive });
            proof {
                assert(index@.contains_key((x as int, y as int)));
                assert forall|a: int, b: int|
                    0 <= a < width && 0 <= b < height && #[trigger] slot(width as int, a, b)
                        < cells@.len() implies cells@[slot(width as int, a, b)] == (Cell {
                    x: a as i32,
                    y: b as i32,
                    is_alive: index@[(a, b)],
                }) by {
                    if slot(width as int, a, b) == before.len() {
                        lemma_slot_is_injective(width as int, a, b, x as int, y as int);
                    } else {
                        assert(cells@[slot(width as int, a, b)] == before[slot(width as int, a, b)]);
                    }
                }
            }
            x += 1;
        }
        proof {
            assert((y + 1) * width == y * width + width) by (nonlinear_arith);
        }
        y += 1;
    }
    proof {
        assert(height * width == width * height) by (nonlinear_arith);
        assert forall|a: int, b: int| 0 <= a < width && 0 <= b < height implies #[trigger] cells@[slot(
            width as int,
            a,
            b,
        )] == (Cell { x: a as i32, y: b as i32, is_alive: index@[(a, b)] }) by {
            lemma_slot_in_range(width as int, height as int, a, b);
        }
    }
    cells
}

/// The automaton: the cell records and the neighbor index, which always
/// describe the same generation.
pub struct Automaton {
    cells: Vec<Cell>,
    index: NeighborIndex,
}

impl View for Automaton {
    type V = Map<(int, int), bool>;

    closed spec fn view(&self) -> Map<(int, int), bool> {
        self.index@
    }
}

impl Automaton {
    #[verifier::type_invariant]
    spec fn in_step(self) -> bool {
        mirrors(self.cells@, self.index.spec_width(), self.index.spec_height(), self.index@)
    }

    /// The number of columns.
    pub closed spec fn spec_width(self) -> int {
        self.index.spec_width()
    }

    /// The number of rows.
    pub closed spec fn spec_height(self) -> int {
        self.index.spec_height()
    }

    /// The automaton whose current generation is `index`.
    pub fn new(index: NeighborIndex) -> (world: Automaton)
        ensures
            world@ == index@,
            world.spec_width() == index.spec_width(),
            world.spec_height() == index.spec_height(),
    {
        let cells: Vec<Cell> = records(&index);
        Automaton { cells, index }
    }

    /// The automaton on a grid of the given dimensions whose cells take the
    /// given liveness values, in row-major order. `None` when the dimensions
    /// are not valid or the number of values is not the number of cells.
    pub fn from_liveness(width: usize, height: usize, liveness: Vec<bool>) -> (world: Option<
        Automaton,
    >)
        ensures
            world.is_some() <==> valid_dimensions(width, height) && liveness@.len() == width
                * height,
            world.is_some() ==> {
                &&& world.unwrap()@ == grid(width as int, height as int, liveness@)
                &&& world.unwrap().spec_width() == width
                &&& world.unwrap().spec_height() == height
            },
    {
        match NeighborIndex::from_liveness(width, height, liveness) {
            Some(index) => Some(Automaton::new(index)),
            None => None,
        }
    }

    /// The automaton on a grid of the given dimensions with the liveness of
    /// each cell drawn at random, independently of the others. `None` when
    /// the dimensions are not valid.
    pub fn random(width: usize, height: usize) -> (world: Option<Automaton>)
        ensures
            world.is_some() <==> valid_dimensions(width, height),
            world.is_some() ==> {
                &&& world.unwrap().spec_width() == width
                &&& world.unwrap().spec_height() == height
                &&& exists|liveness: Seq<bool>|
                    liveness.len() == width * height && world.unwrap()@ == grid(
                        width as int,
                        height as int,
                        liveness,
                    )
            },
    {
        if !dimensions_fit(width, height) {
            return None;
        }
        let liveness: Vec<bool> = random_liveness(width * height);
        Automaton::from_liveness(width, height, liveness)
    }

    /// Advances the automaton by one tick: every cell takes the state that
    /// the transition rule gives it in the generation before the tick, and
    /// the records and the index change together.
    pub fn tick(&mut self)
        ensures
            final(self)@ == next_generation(old(self)@),
            final(self).spec_width() == old(self).spec_width(),
            final(self).spec_height() == old(self).spec_height(),
    {
        let index: NeighborIndex = self.index.successor();
        let cells: Vec<Cell> = records(&index);
        *self = Automaton { cells, index };
    }

    /// The record of every cell, in row-major order.
    pub fn cells(&self) -> (cells: &Vec<Cell>)
        ensures
            mirrors(cells@, self.spec_width(), self.spec_height(), self@),
    {
        proof {
            use_type_invariant(self);
        }
        &self.cells
    }

    /// The number of columns.
    pub fn width(&self) -> (width: usize)
        ensures
            width == self.spec_width(),
            width <= i32::MAX,
    {
        self.index.width()
    }

    /// The number of rows.
    pub fn height(&self) -> (height: usize)
        ensures
            height == self.spec_height(),
            height <= i32::MAX,
    {
        self.index.height()
    }

    /// Whether the cell at `(x, y)` is alive in the current generation; a
    /// coordinate outside the grid counts as dead.
    pub fn is_alive(&self, x: i32, y: i32) -> (alive: bool)
        ensures
            alive == is_live(self@, x as int, y as int),
    {
        self.index.is_alive(x, y)
    }

    /// The neighbor index of the current generation.
    pub fn index(&self) -> (index: &NeighborIndex)
        ensures
            index@ == self@,
            index.spec_width() == self.spec_width(),
            index.spec_height() == self.spec_height(),
    {
        &self.index
    }
}

} // verus!
