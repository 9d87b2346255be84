use tick_sim::index::{NeighborIndex, GRID_HEIGHT, GRID_WIDTH};
use tick_sim::scheduler::{run, TICKS_PER_SECOND};
use tick_sim::seed::random_liveness;
use tick_sim::world::{records, Automaton, Cell};

fn world_with(width: usize, height: usize, live: &[(i32, i32)]) -> Automaton {
    let mut index = NeighborIndex::new(width, height).expect("valid dimensions");
    for &(x, y) in live {
        assert!(index.set(x, y, true));
    }
    Automaton::new(index)
}

fn live_cells(world: &Automaton) -> Vec<(i32, i32)> {
    let mut live: Vec<(i32, i32)> = Vec::new();
    for cell in world.cells() {
        if cell.is_alive {
            live.push((cell.x, cell.y));
        }
    }
    live.sort();
    live
}

fn assert_in_step(world: &Automaton) {
    let width = world.width();
    let height = world.height();
    let cells = world.cells();
    assert_eq!(cells.len(), width * height);
    for y in 0..height {
        for x in 0..width {
            let cell = cells[y * width + x];
            assert_eq!(cell.x, x as i32);
            assert_eq!(cell.y, y as i32);
            assert_eq!(Some(cell.is_alive), world.index().get(cell.x, cell.y));
            assert_eq!(cell.is_alive, world.is_alive(cell.x, cell.y));
        }
    }
}

#[test]
fn tick_rate_is_sixty_per_second() {
    assert_eq!(TICKS_PER_SECOND, 60);
}

#[test]
fn records_are_row_major_with_their_coordinates() {
    let index = NeighborIndex::from_liveness(3, 2, vec![true, false, false, false, true, true])
        .expect("six values for six cells");
    let cells = records(&index);
    let expected = vec![
        Cell { x: 0, y: 0, is_alive: true },
        Cell { x: 1, y: 0, is_alive: false },
        Cell { x: 2, y: 0, is_alive: false },
        Cell { x: 0, y: 1, is_alive: false },
        Cell { x: 1, y: 1, is_alive: true },
        Cell { x: 2, y: 1, is_alive: true },
    ];
    assert_eq!(cells, expected);
}

#[test]
fn new_world_mirrors_its_index() {
    let world = world_with(6, 4, &[(0, 0), (5, 3), (2, 1)]);
    assert_eq!(world.width(), 6);
    assert_eq!(world.height(), 4);
    assert_in_step(&world);
    assert_eq!(live_cells(&world), vec![(0, 0), (2, 1), (5, 3)]);
}

#[test]
fn world_from_liveness_refuses_bad_input() {
    assert!(Automaton::from_liveness(2, 2, vec![true; 3]).is_none());
    assert!(Automaton::from_liveness(i32::MAX as usize + 1, 0, Vec::new()).is_none());
    let world = Automaton::from_liveness(2, 2, vec![true, false, false, true]).expect("four cells");
    assert_eq!(live_cells(&world), vec![(0, 0), (1, 1)]);
}

#[test]
fn cells_and_index_stay_in_step_over_ticks() {
    let mut world = world_with(8, 8, &[(1, 0), (2, 1), (0, 2), (1, 2), (2, 2), (6, 6), (6, 7)]);
    for _ in 0..12 {
        world.tick();
        assert_in_step(&world);
    }
}

#[test]
fn tick_matches_the_successor_of_the_index() {
    let mut world = world_with(8, 8, &[(1, 0), (2, 1), (0, 2), (1, 2), (2, 2), (6, 6), (6, 7)]);
    for _ in 0..6 {
        let expected = world.index().successor();
        world.tick();
        for y in 0..8 {
            for x in 0..8 {
                assert_eq!(world.is_alive(x, y), expected.is_alive(x, y));
            }
        }
    }
}

#[test]
fn blinker_oscillates_with_period_two() {
    let mut world = world_with(5, 5, &[(1, 2), (2, 2), (3, 2)]);
    world.tick();
    assert_eq!(live_cells(&world), vec![(2, 1), (2, 2), (2, 3)]);
    world.tick();
    assert_eq!(live_cells(&world), vec![(1, 2), (2, 2), (3, 2)]);
}

#[test]
fn underpopulated_cells_die() {
    let mut world = world_with(5, 5, &[(2, 2)]);
    world.tick();
    assert!(live_cells(&world).is_empty());
    let mut world = world_with(5, 5, &[(2, 2), (3, 3)]);
    world.tick();
    assert!(live_cells(&world).is_empty());
}

#[test]
fn overpopulated_cell_dies() {
    let mut world = world_with(5, 5, &[(2, 2), (1, 1), (3, 1), (1, 3), (3, 3)]);
    assert_eq!(world.index().live_neighbors(2, 2), 4);
    world.tick();
    assert!(!world.is_alive(2, 2));
}

#[test]
fn cell_with_three_neighbors_is_born() {
    let mut world = world_with(5, 5, &[(1, 1), (3, 1), (2, 3)]);
    assert_eq!(world.index().live_neighbors(2, 2), 3);
    world.tick();
    assert_eq!(live_cells(&world), vec![(2, 2)]);
}

#[test]
fn glider_moves_one_cell_diagonally_in_four_generations() {
    let shape = [(1, 0), (2, 1), (0, 2), (1, 2), (2, 2)];
    for (left, top) in [(0, 0), (10, 20), (77, 70), (150, 130)] {
        let seed: Vec<(i32, i32)> = shape.iter().map(|&(x, y)| (left + x, top + y)).collect();
        let mut world = world_with(GRID_WIDTH, GRID_HEIGHT, &seed);
        run(&mut world, 4);
        let mut expected: Vec<(i32, i32)> =
            shape.iter().map(|&(x, y)| (left + x + 1, top + y + 1)).collect();
        expected.sort();
        assert_eq!(live_cells(&world), expected);
        assert_in_step(&world);
    }
}

#[test]
fn glider_passes_through_its_four_phases() {
    let mut world = world_with(6, 6, &[(1, 0), (2, 1), (0, 2), (1, 2), (2, 2)]);
    world.tick();
    assert_eq!(live_cells(&world), vec![(0, 1), (1, 2), (1, 3), (2, 1), (2, 2)]);
    world.tick();
    assert_eq!(live_cells(&world), vec![(0, 2), (1, 3), (2, 1), (2, 2), (2, 3)]);
    world.tick();
    assert_eq!(live_cells(&world), vec![(1, 1), (1, 3), (2, 2), (2, 3), (3, 2)]);
    world.tick();
    assert_eq!(live_cells(&world), vec![(1, 3), (2, 1), (2, 3), (3, 2), (3, 3)]);
}

#[test]
fn all_dead_grid_stays_dead() {
    let mut world = world_with(GRID_WIDTH, GRID_HEIGHT, &[]);
    world.tick();
    assert!(live_cells(&world).is_empty());
    run(&mut world, 25);
    assert!(live_cells(&world).is_empty());
    assert_in_step(&world);
}

#[test]
fn run_of_zero_ticks_changes_nothing() {
    let mut world = world_with(5, 5, &[(1, 2), (2, 2), (3, 2)]);
    run(&mut world, 0);
    assert_eq!(live_cells(&world), vec![(1, 2), (2, 2), (3, 2)]);
}

#[test]
fn run_is_repeated_ticking() {
    let seed = [(1, 0), (2, 1), (0, 2), (1, 2), (2, 2), (7, 7), (8, 7), (9, 7)];
    let mut stepped = world_with(12, 12, &seed);
    let mut ran = world_with(12, 12, &seed);
    for _ in 0..9 {
        stepped.tick();
    }
    run(&mut ran, 9);
    assert_eq!(live_cells(&ran), live_cells(&stepped));
}

#[test]
fn birth_sees_a_neighbor_that_dies_in_the_same_tick() {
    // (0, 0) stands before (1, 1) in every row-major walk and dies in this
    // tick; (1, 1) still counts it as one of its three live neighbours.
    let mut world = world_with(4, 4, &[(0, 0), (2, 1), (2, 2)]);
    assert_eq!(world.index().live_neighbors(0, 0), 0);
    assert_eq!(world.index().live_neighbors(1, 1), 3);
    world.tick();
    assert!(!world.is_alive(0, 0));
    assert!(world.is_alive(1, 1));
    assert_eq!(live_cells(&world), vec![(1, 1)]);
}

#[test]
fn birth_sees_a_later_neighbor_that_dies_in_the_same_tick() {
    // The mirror image: the dying cell stands after the one that is born.
    let mut world = world_with(4, 4, &[(3, 3), (1, 2), (1, 1)]);
    assert_eq!(world.index().live_neighbors(3, 3), 0);
    assert_eq!(world.index().live_neighbors(2, 2), 3);
    world.tick();
    assert!(!world.is_alive(3, 3));
    assert!(world.is_alive(2, 2));
    assert_eq!(live_cells(&world), vec![(2, 2)]);
}

#[test]
fn survival_sees_neighbors_that_die_in_the_same_tick() {
    // A diagonal of three: both ends die of underpopulation, the middle one
    // had two live neighbours before the tick and survives.
    let mut world = world_with(5, 5, &[(1, 1), (2, 2), (3, 3)]);
    world.tick();
    assert_eq!(live_cells(&world), vec![(2, 2)]);
    world.tick();
    assert!(live_cells(&world).is_empty());
}

#[test]
fn random_world_has_the_dimensions_asked_for() {
    let world = Automaton::random(GRID_WIDTH, GRID_HEIGHT).expect("the standard grid is valid");
    assert_eq!(world.width(), 160);
    assert_eq!(world.height(), 144);
    assert_eq!(world.cells().len(), 23_040);
    assert_in_step(&world);
    assert!(Automaton::random(i32::MAX as usize + 1, 1).is_none());
}

#[test]
fn random_world_holds_live_and_dead_cells() {
    let world = Automaton::random(GRID_WIDTH, GRID_HEIGHT).expect("the standard grid is valid");
    let live = live_cells(&world).len();
    assert!(live > 0);
    assert!(live < 23_040);
}

#[test]
fn random_liveness_has_the_length_asked_for() {
    assert_eq!(random_liveness(0).len(), 0);
    assert_eq!(random_liveness(1).len(), 1);
    let drawn = random_liveness(4096);
    assert_eq!(drawn.len(), 4096);
    assert!(drawn.iter().any(|&alive| alive));
    assert!(drawn.iter().any(|&alive| !alive));
}
