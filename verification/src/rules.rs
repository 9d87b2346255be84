//! The mathematical model of the automaton: generations as maps from grid
//! coordinates to liveness, and the transition between them.

use vstd::prelude::*;

verus! {

/// Whether the cell at `(x, y)` is alive in `generation`. A coordinate that
/// the generation does not hold counts as dead.
pub open spec fn is_live(generation: Map<(int, int), bool>, x: int, y: int) -> bool {
    generation.contains_key((x, y)) && generation[(x, y)]
}

/// One if the cell at `(x, y)` is alive in `generation`, zero otherwise.
pub open spec fn live(generation: Map<(int, int), bool>, x: int, y: int) -> nat {
    if is_live(generation, x, y) {
        1
    } else {
        0
    }
}

/// The number of live cells among the eight Moore neighbours of `(x, y)`.
pub open spec fn live_neighbors(generation: Map<(int, int), bool>, x: int, y: int) -> nat {
    live(generation, x - 1, y - 1) + live(generation, x, y - 1) + live(generation, x + 1, y - 1)
        + live(generation, x - 1, y) + live(generation, x + 1, y)
        + live(generation, x - 1, y + 1) + live(generation, x, y + 1)
        + live(generation, x + 1, y + 1)
}

/// The transition rule: a live cell stays alive with two or three live
/// neighbours, a dead cell comes alive with exactly three.
pub open spec fn next_state(alive: bool, neighbors: nat) -> bool {
    if alive {
        neighbors == 2 || neighbors == 3
    } else {
        neighbors == 3
    }
}

/// The generation that follows `generation`: it holds the same coordinates,
/// and the state of each is the transition rule applied to its state and its
/// live neighbours in `generation`, and in nothing else.
pub open spec fn next_generation(generation: Map<(int, int), bool>) -> Map<(int, int), bool> {
    Map::new(
        |c: (int, int)| generation.contains_key(c),
        |c: (int, int)| next_state(generation[c], live_neighbors(generation, c.0, c.1)),
    )
}

/// The generation reached from `generation` after `ticks` transitions.
pub open spec fn generation_after(generation: Map<(int, int), bool>, ticks: nat) -> Map<
    (int, int),
    bool,
>
    decreases ticks,
{
    if ticks == 0 {
        generation
    } else {
        next_generation(generation_after(generation, (ticks - 1) as nat))
    }
}

/// Whether no cell of `generation` is alive.
pub open spec fn all_dead(generation: Map<(int, int), bool>) -> bool {
    forall|c: (int, int)| generation.contains_key(c) ==> !(#[trigger] generation[c])
}

/// Whether `(a, b)` is one of the eight Moore neighbours of `(x, y)`.
pub open spec fn adjacent(x: int, y: int, a: int, b: int) -> bool {
    (a != x || b != y) && x - 1 <= a <= x + 1 && y - 1 <= b <= y + 1
}

/// Applies the transition rule to one cell given the number of its live
/// neighbours.
pub fn transition(alive: bool, neighbors: u8) -> (next: bool)
    ensures
        next == next_state(alive, neighbors as nat),
{
    if alive {
        neighbors == 2 || neighbors == 3
    } else {
        neighbors == 3
    }
}

} // verus!
