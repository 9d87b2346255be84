//! Laws of the automaton, stated over generations.

use crate::rules::{
    adjacent, all_dead, generation_after, is_live, live, live_neighbors, next_generation,
    next_state,
};
use vstd::prelude::*;

verus! {

/// Underpopulation: a live cell with no or one live neighbour is dead in the
/// next generation.
pub proof fn lemma_underpopulation(generation: Map<(int, int), bool>, x: int, y: int)
    requires
        is_live(generation, x, y),
        live_neighbors(generation, x, y) <= 1,
    ensures
        next_generation(generation).contains_key((x, y)),
        !next_generation(generation)[(x, y)],
{
}

/// Survival: a live cell with two or three live neighbours is alive in the
/// next generation.
pub proof fn lemma_survival(generation: Map<(int, int), bool>, x: int, y: int)
    requires
        is_live(generation, x, y),
        live_neighbors(generation, x, y) == 2 || live_neighbors(generation, x, y) == 3,
    ensures
        is_live(next_generation(generation), x, y),
{
}

/// Overpopulation: a live cell with four or more live neighbours is dead in
/// the next generation.
pub proof fn lemma_overpopulation(generation: Map<(int, int), bool>, x: int, y: int)
    requires
        is_live(generation, x, y),
        live_neighbors(generation, x, y) >= 4,
    ensures
        next_generation(generation).contains_key((x, y)),
        !next_generation(generation)[(x, y)],
{
}

/// Birth: a dead cell with exactly three live neighbours is alive in the next
/// generation.
pub proof fn lemma_birth(generation: Map<(int, int), bool>, x: int, y: int)
    requires
        generation.contains_key((x, y)),
        !generation[(x, y)],
        live_neighbors(generation, x, y) == 3,
    ensures
        is_live(next_generation(generation), x, y),
{
}

/// A dead cell with any other number of live neighbours than three stays
/// dead.
pub proof fn lemma_stays_dead(generation: Map<(int, int), bool>, x: int, y: int)
    requires
        generation.contains_key((x, y)),
        !generation[(x, y)],
        live_neighbors(generation, x, y) != 3,
    ensures
        next_generation(generation).contains_key((x, y)),
        !next_generation(generation)[(x, y)],
{
}

/// No cell has more than eight live neighbours.
pub proof fn lemma_at_most_eight_neighbors(generation: Map<(int, int), bool>, x: int, y: int)
    ensures
        live_neighbors(generation, x, y) <= 8,
{
}

/// Only the eight cells around `(x, y)` are counted: two generations that
/// agree on which of them are alive give `(x, y)` the same number of live
/// neighbours.
pub proof fn lemma_count_is_local(
    first: Map<(int, int), bool>,
    second: Map<(int, int), bool>,
    x: int,
    y: int,
)
    requires
        forall|a: int, b: int| #[trigger]
            adjacent(x, y, a, b) ==> is_live(first, a, b) == is_live(second, a, b),
    ensures
        live_neighbors(first, x, y) == live_neighbors(second, x, y),
{
    assert(adjacent(x, y, x - 1, y - 1));
    assert(adjacent(x, y, x, y - 1));
    assert(adjacent(x, y, x + 1, y - 1));
    assert(adjacent(x, y, x - 1, y));
    assert(adjacent(x, y, x + 1, y));
    assert(adjacent(x, y, x - 1, y + 1));
    assert(adjacent(x, y, x, y + 1));
    assert(adjacent(x, y, x + 1, y + 1));
}

/// A cell that is not one of the eight around `(x, y)` is never counted:
/// whatever its state, the number of live neighbours of `(x, y)` is the same.
pub proof fn lemma_far_cell_is_not_counted(
    generation: Map<(int, int), bool>,
    x: int,
    y: int,
    a: int,
    b: int,
    alive: bool,
)
    requires
        !adjacent(x, y, a, b),
    ensures
        live_neighbors(generation.insert((a, b), alive), x, y) == live_neighbors(generation, x, y),
{
    lemma_count_is_local(generation.insert((a, b), alive), generation, x, y);
}

/// No wraparound: on a grid of `width` by `height` cells, more than two each
/// way, the corner `(0, 0)` counts no cell of the last column or of the last
/// row. Whatever the state of such a cell, the corner has the same number of
/// live neighbours.
pub proof fn lemma_no_wraparound(
    generation: Map<(int, int), bool>,
    width: int,
    height: int,
    a: int,
    b: int,
    alive: bool,
)
    requires
        width > 2,
        height > 2,
        a == width - 1 || b == height - 1,
    ensures
        !adjacent(0, 0, a, b),
        live_neighbors(generation.insert((a, b), alive), 0, 0) == live_neighbors(generation, 0, 0),
{
    lemma_far_cell_is_not_counted(generation, 0, 0, a, b, alive);
}

/// The corner `(0, 0)` of a generation that holds no negative coordinate has
/// the three neighbours inside the grid and no other.
pub proof fn lemma_corner_neighbors(generation: Map<(int, int), bool>)
    requires
        forall|a: int, b: int| #[trigger] generation.contains_key((a, b)) ==> 0 <= a && 0 <= b,
    ensures
        live_neighbors(generation, 0, 0) == live(generation, 1, 0) + live(generation, 0, 1) + live(
            generation,
            1,
            1,
        ),
{
}

/// Snapshot isolation: the next state of a cell is the transition rule
/// applied to its state and its neighbours in the generation before the tick,
/// so it is the same in every generation that agrees with that one on the
/// cell and on the eight around it.
pub proof fn lemma_snapshot_isolation(
    before: Map<(int, int), bool>,
    other: Map<(int, int), bool>,
    x: int,
    y: int,
)
    requires
        before.contains_key((x, y)),
        other.contains_key((x, y)),
        before[(x, y)] == other[(x, y)],
        forall|a: int, b: int| #[trigger]
            adjacent(x, y, a, b) ==> is_live(before, a, b) == is_live(other, a, b),
    ensures
        next_generation(before)[(x, y)] == next_state(
            before[(x, y)],
            live_neighbors(before, x, y),
        ),
        next_generation(before)[(x, y)] == next_generation(other)[(x, y)],
{
    lemma_count_is_local(before, other, x, y);
}

/// A generation without a live cell is followed by itself.
pub proof fn lemma_all_dead_stays(generation: Map<(int, int), bool>)
    requires
        all_dead(generation),
    ensures
        next_generation(generation) == generation,
{
    assert forall|c: (int, int)| generation.contains_key(c) implies next_generation(generation)[c]
        == generation[c] by {
        assert(!generation[c]);
        assert(live_neighbors(generation, c.0, c.1) == 0);
    }
    assert(next_generation(generation) =~= generation);
}

/// All-dead fixed point: a generation without a live cell is still the same
/// after any number of ticks.
pub proof fn lemma_all_dead_is_fixed_point(generation: Map<(int, int), bool>, ticks: nat)
    requires
        all_dead(generation),
    ensures
        generation_after(generation, ticks) == generation,
    decreases ticks,
{
    if ticks > 0 {
        lemma_all_dead_is_fixed_point(generation, (ticks - 1) as nat);
        lemma_all_dead_stays(generation);
    }
}

} // verus!
