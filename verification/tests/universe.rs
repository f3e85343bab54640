use fixedbitset::FixedBitSet;
use game_of_life::Cell::{Alive, Dead};
use game_of_life::{next_state, Cell, Timer, Universe};

fn alive(universe: &Universe, row: u32, col: u32) -> bool {
    universe.get_cells().contains(universe.get_index(row, col))
}

fn live_cells(universe: &Universe) -> Vec<(u32, u32)> {
    let mut found = Vec::new();
    for row in 0..universe.height() {
        for col in 0..universe.width() {
            if alive(universe, row, col) {
                found.push((row, col));
            }
        }
    }
    found
}

fn sorted(mut cells: Vec<(u32, u32)>) -> Vec<(u32, u32)> {
    cells.sort();
    cells
}

fn board(width: u32, height: u32, cells: &[(u32, u32)]) -> Universe {
    let mut universe = Universe::empty(width, height);
    universe.set_cells(cells);
    universe
}

fn pulsar_cells(row: u32, col: u32) -> Vec<(u32, u32)> {
    let offsets: [(i64, i64); 48] = [
        (-6, -4), (-6, -3), (-6, -2), (-6, 2), (-6, 3), (-6, 4),
        (-4, -6), (-4, -1), (-4, 1), (-4, 6),
        (-3, -6), (-3, -1), (-3, 1), (-3, 6),
        (-2, -6), (-2, -1), (-2, 1), (-2, 6),
        (-1, -4), (-1, -3), (-1, -2), (-1, 2), (-1, 3), (-1, 4),
        (1, -4), (1, -3), (1, -2), (1, 2), (1, 3), (1, 4),
        (2, -6), (2, -1), (2, 1), (2, 6),
        (3, -6), (3, -1), (3, 1), (3, 6),
        (4, -6), (4, -1), (4, 1), (4, 6),
        (6, -4), (6, -3), (6, -2), (6, 2), (6, 3), (6, 4),
    ];
    offsets.iter().map(|&(dr, dc)| ((row as i64 + dr) as u32, (col as i64 + dc) as u32)).collect()
}

#[test]
fn empty_board_has_the_given_size_and_no_live_cell() {
    let universe = Universe::empty(7, 3);
    assert_eq!(universe.width(), 7);
    assert_eq!(universe.height(), 3);
    assert_eq!(universe.get_cells().len(), 21);
    assert_eq!(universe.get_cells().count_ones(..), 0);
    assert!(live_cells(&universe).is_empty());
}

#[test]
fn from_cells_gives_each_cell_its_state() {
    let universe = Universe::from_cells(3, 2, &[Dead, Alive, Dead, Alive, Alive, Dead]);
    assert_eq!(universe.width(), 3);
    assert_eq!(universe.height(), 2);
    assert_eq!(universe.get_cells().len(), 6);
    assert_eq!(live_cells(&universe), vec![(0, 1), (1, 0), (1, 1)]);
    let universe = Universe::from_cells(0, 4, &[]);
    assert_eq!(universe.get_cells().len(), 0);
    let universe = Universe::from_cells(2, 2, &[Alive; 4]);
    assert_eq!(universe.get_cells().count_ones(..), 4);
}

#[test]
fn from_cells_of_dead_cells_is_the_empty_board() {
    let universe = Universe::from_cells(7, 5, &[Cell::Dead; 35]);
    assert_eq!(universe.get_cells(), Universe::empty(7, 5).get_cells());
}

#[test]
fn a_board_from_cells_can_be_played_on() {
    let mut universe = Universe::from_cells(
        5,
        5,
        &[
            Dead, Dead, Dead, Dead, Dead, //
            Dead, Dead, Alive, Dead, Dead, //
            Dead, Dead, Alive, Dead, Dead, //
            Dead, Dead, Alive, Dead, Dead, //
            Dead, Dead, Dead, Dead, Dead,
        ],
    );
    universe.tick();
    assert_eq!(live_cells(&universe), vec![(2, 1), (2, 2), (2, 3)]);
}

#[test]
fn new_board_has_one_bit_for_each_cell() {
    let universe = Universe::new(128, 128);
    assert_eq!(universe.width(), 128);
    assert_eq!(universe.height(), 128);
    assert_eq!(universe.get_cells().len(), 128 * 128);
    let universe = Universe::new(5, 9);
    assert_eq!(universe.get_cells().len(), 45);
}

#[test]
fn new_board_is_seeded_with_both_states() {
    let universe = Universe::new(64, 64);
    let ones = universe.get_cells().count_ones(..);
    assert!(ones > 0);
    assert!(ones < 64 * 64);
}

#[test]
fn boards_without_cells_are_accepted() {
    let mut universe = Universe::empty(0, 5);
    assert_eq!(universe.get_cells().len(), 0);
    universe.tick();
    assert_eq!(universe.get_cells().len(), 0);
    let mut universe = Universe::new(4, 0);
    universe.tick();
    assert_eq!(universe.width(), 4);
    assert_eq!(universe.height(), 0);
    assert_eq!(universe.cells().len(), 0);
}

#[test]
fn index_is_row_times_width_plus_column() {
    let universe = Universe::empty(7, 5);
    assert_eq!(universe.get_index(0, 0), 0);
    assert_eq!(universe.get_index(0, 6), 6);
    assert_eq!(universe.get_index(1, 0), 7);
    assert_eq!(universe.get_index(3, 4), 25);
    assert_eq!(universe.get_index(4, 6), 34);
}

#[test]
fn index_does_not_overflow_on_a_wide_board() {
    let universe = Universe::empty(70_000, 2);
    assert_eq!(universe.get_index(1, 69_999), 139_999);
}

#[test]
fn set_cells_makes_the_listed_cells_alive_and_keeps_the_others() {
    let mut universe = Universe::empty(6, 4);
    universe.set_cells(&[(0, 0), (3, 5)]);
    assert_eq!(live_cells(&universe), vec![(0, 0), (3, 5)]);
    universe.set_cells(&[(1, 2), (0, 0)]);
    assert_eq!(live_cells(&universe), vec![(0, 0), (1, 2), (3, 5)]);
    universe.set_cells(&[]);
    assert_eq!(live_cells(&universe), vec![(0, 0), (1, 2), (3, 5)]);
}

#[test]
fn get_cells_has_bit_i_for_cell_i() {
    let universe = board(5, 3, &[(0, 1), (2, 4)]);
    let mut expected = FixedBitSet::with_capacity(15);
    expected.insert(1);
    expected.insert(14);
    assert_eq!(universe.get_cells(), &expected);
}

#[test]
fn cells_are_packed_thirty_two_to_a_block() {
    let mut universe = Universe::empty(10, 7);
    assert_eq!(universe.cells(), &[0u32, 0, 0][..]);
    universe.set_cells(&[(0, 0), (0, 3), (3, 1), (3, 2), (6, 9)]);
    assert_eq!(universe.cells(), &[0b1001u32 | (1 << 31), 1, 1 << 5][..]);
    let universe = Universe::empty(8, 8);
    assert_eq!(universe.cells().len(), 2);
}

#[test]
fn toggle_inverts_one_cell() {
    let mut universe = board(4, 4, &[(1, 1)]);
    universe.toggle_cell(2, 3);
    assert_eq!(live_cells(&universe), vec![(1, 1), (2, 3)]);
    universe.toggle_cell(1, 1);
    assert_eq!(live_cells(&universe), vec![(2, 3)]);
}

#[test]
fn toggle_twice_restores_the_cell() {
    let mut universe = Universe::new(9, 6);
    let before = universe.get_cells().clone();
    for (row, col) in [(0, 0), (5, 8), (2, 3)] {
        let was = alive(&universe, row, col);
        universe.toggle_cell(row, col);
        assert_eq!(alive(&universe, row, col), !was);
        universe.toggle_cell(row, col);
        assert_eq!(universe.get_cells(), &before);
    }
}

#[test]
fn neighbors_are_counted_inside_the_board() {
    let universe = board(5, 5, &[(1, 1), (1, 2), (1, 3), (2, 1), (2, 3), (3, 1), (3, 2), (3, 3)]);
    assert_eq!(universe.live_neighbor_count(2, 2), 8);
    assert_eq!(universe.live_neighbor_count(1, 1), 2);
    assert_eq!(universe.live_neighbor_count(2, 1), 4);
    assert_eq!(universe.live_neighbor_count(0, 0), 1);
    assert_eq!(universe.live_neighbor_count(0, 2), 3);
    assert_eq!(universe.live_neighbor_count(4, 4), 1);
}

#[test]
fn a_cell_is_not_its_own_neighbor() {
    let universe = board(5, 5, &[(2, 2)]);
    assert_eq!(universe.live_neighbor_count(2, 2), 0);
    assert_eq!(universe.live_neighbor_count(1, 1), 1);
    assert_eq!(universe.live_neighbor_count(3, 2), 1);
    assert_eq!(universe.live_neighbor_count(0, 2), 0);
}

#[test]
fn neighbors_wrap_around_the_edges() {
    let universe = board(6, 4, &[(3, 5)]);
    assert_eq!(universe.live_neighbor_count(0, 0), 1);
    assert_eq!(universe.live_neighbor_count(0, 5), 1);
    assert_eq!(universe.live_neighbor_count(3, 0), 1);
    assert_eq!(universe.live_neighbor_count(2, 0), 1);
    assert_eq!(universe.live_neighbor_count(0, 4), 1);
    assert_eq!(universe.live_neighbor_count(1, 0), 0);
    assert_eq!(universe.live_neighbor_count(0, 1), 0);
    let universe = board(6, 4, &[(0, 0)]);
    assert_eq!(universe.live_neighbor_count(3, 5), 1);
    assert_eq!(universe.live_neighbor_count(3, 0), 1);
    assert_eq!(universe.live_neighbor_count(0, 5), 1);
    assert_eq!(universe.live_neighbor_count(3, 1), 1);
    assert_eq!(universe.live_neighbor_count(2, 5), 0);
}

#[test]
fn neighbors_match_an_enumeration_of_the_eight_wrapped_coordinates() {
    let universe = Universe::new(7, 5);
    let (width, height) = (7i64, 5i64);
    for row in 0..height {
        for col in 0..width {
            let mut expected = 0u8;
            for dr in [-1i64, 0, 1] {
                for dc in [-1i64, 0, 1] {
                    if (dr, dc) != (0, 0) {
                        let r = (row + dr).rem_euclid(height) as u32;
                        let c = (col + dc).rem_euclid(width) as u32;
                        expected += alive(&universe, r, c) as u8;
                    }
                }
            }
            assert_eq!(universe.live_neighbor_count(row as u32, col as u32), expected);
        }
    }
}

#[test]
fn on_a_narrow_board_a_neighbor_is_counted_at_each_of_its_places() {
    let universe = board(1, 1, &[(0, 0)]);
    assert_eq!(universe.live_neighbor_count(0, 0), 8);
    let universe = board(2, 2, &[(0, 0)]);
    assert_eq!(universe.live_neighbor_count(0, 0), 0);
    assert_eq!(universe.live_neighbor_count(0, 1), 2);
    assert_eq!(universe.live_neighbor_count(1, 0), 2);
    assert_eq!(universe.live_neighbor_count(1, 1), 4);
    let universe = board(5, 1, &[(0, 2)]);
    assert_eq!(universe.live_neighbor_count(0, 1), 3);
    assert_eq!(universe.live_neighbor_count(0, 2), 2);
    assert_eq!(universe.live_neighbor_count(0, 3), 3);
    assert_eq!(universe.live_neighbor_count(0, 0), 0);
}

#[test]
fn next_state_follows_the_rule() {
    for n in 0..=8u8 {
        assert_eq!(next_state(true, n), n == 2 || n == 3);
        assert_eq!(next_state(false, n), n == 3);
    }
}

#[test]
fn a_live_cell_with_no_or_one_live_neighbor_dies() {
    let mut universe = board(5, 5, &[(2, 2)]);
    universe.tick();
    assert!(!alive(&universe, 2, 2));
    let mut universe = board(5, 5, &[(2, 2), (1, 1)]);
    universe.tick();
    assert!(!alive(&universe, 2, 2));
}

#[test]
fn a_live_cell_with_two_or_three_live_neighbors_survives() {
    let mut universe = board(5, 5, &[(2, 2), (1, 1), (3, 3)]);
    universe.tick();
    assert!(alive(&universe, 2, 2));
    let mut universe = board(5, 5, &[(2, 2), (1, 1), (3, 3), (1, 3)]);
    universe.tick();
    assert!(alive(&universe, 2, 2));
}

#[test]
fn a_live_cell_with_four_or_more_live_neighbors_dies() {
    let mut universe = board(5, 5, &[(2, 2), (1, 1), (3, 3), (1, 3), (3, 1)]);
    universe.tick();
    assert!(!alive(&universe, 2, 2));
    let mut universe =
        board(5, 5, &[(2, 2), (1, 1), (1, 2), (1, 3), (2, 1), (2, 3), (3, 1), (3, 2), (3, 3)]);
    universe.tick();
    assert!(!alive(&universe, 2, 2));
}

#[test]
fn a_dead_cell_with_three_live_neighbors_comes_alive() {
    let mut universe = board(5, 5, &[(1, 1), (1, 3), (3, 2)]);
    universe.tick();
    assert!(alive(&universe, 2, 2));
    assert_eq!(live_cells(&universe), vec![(2, 2)]);
}

#[test]
fn a_dead_cell_with_another_number_of_live_neighbors_stays_dead() {
    let neighbors = [(1, 1), (1, 2), (1, 3), (2, 1), (2, 3), (3, 1), (3, 2), (3, 3)];
    for n in [0usize, 1, 2, 4, 5, 6, 7, 8] {
        let mut universe = board(5, 5, &neighbors[..n]);
        assert_eq!(universe.live_neighbor_count(2, 2), n as u8);
        universe.tick();
        assert!(!alive(&universe, 2, 2));
    }
}

#[test]
fn tick_reads_only_the_board_before() {
    let mut universe = board(5, 5, &[(2, 1), (2, 2), (2, 3)]);
    universe.tick();
    assert_eq!(live_cells(&universe), vec![(1, 2), (2, 2), (3, 2)]);
    universe.tick();
    assert_eq!(live_cells(&universe), vec![(2, 1), (2, 2), (2, 3)]);
}

#[test]
fn a_block_is_still() {
    let mut universe = board(6, 6, &[(2, 2), (2, 3), (3, 2), (3, 3)]);
    universe.tick();
    assert_eq!(live_cells(&universe), vec![(2, 2), (2, 3), (3, 2), (3, 3)]);
}

#[test]
fn tick_wraps_around_the_edges() {
    let mut universe = board(5, 5, &[(0, 4), (0, 0), (0, 1)]);
    universe.tick();
    assert_eq!(live_cells(&universe), vec![(0, 0), (1, 0), (4, 0)]);
}

#[test]
fn a_dead_board_stays_dead() {
    for (width, height) in [(1, 1), (2, 3), (5, 5), (64, 64), (33, 7)] {
        let mut universe = Universe::empty(width, height);
        universe.tick();
        assert_eq!(universe.width(), width);
        assert_eq!(universe.height(), height);
        assert_eq!(universe.get_cells().len(), (width * height) as usize);
        assert!(universe.get_cells().is_clear());
    }
}

#[test]
fn tick_keeps_the_size_of_the_board() {
    let mut universe = Universe::new(13, 11);
    for _ in 0..5 {
        universe.tick();
        assert_eq!(universe.width(), 13);
        assert_eq!(universe.height(), 11);
        assert_eq!(universe.get_cells().len(), 143);
    }
}

#[test]
fn glider_has_five_cells() {
    let mut universe = Universe::empty(8, 8);
    universe.spawn_glider(3, 4);
    assert_eq!(live_cells(&universe), vec![(2, 5), (3, 3), (3, 5), (4, 4), (4, 5)]);
}

#[test]
fn glider_touching_the_edges_of_the_board() {
    let mut universe = Universe::empty(3, 3);
    universe.spawn_glider(1, 1);
    assert_eq!(live_cells(&universe), vec![(0, 2), (1, 0), (1, 2), (2, 1), (2, 2)]);
}

#[test]
fn glider_moves_one_cell_down_and_right_in_four_generations() {
    let mut universe = Universe::empty(16, 16);
    universe.spawn_glider(5, 6);
    for _ in 0..4 {
        universe.tick();
    }
    let mut expected = Universe::empty(16, 16);
    expected.spawn_glider(6, 7);
    assert_eq!(live_cells(&universe), vec![(5, 8), (6, 6), (6, 8), (7, 7), (7, 8)]);
    assert_eq!(universe.get_cells(), expected.get_cells());
}

#[test]
fn glider_moves_on_the_smallest_board_that_keeps_it_off_the_edges() {
    let mut universe = Universe::empty(6, 6);
    universe.spawn_glider(2, 2);
    for _ in 0..4 {
        universe.tick();
    }
    assert_eq!(live_cells(&universe), vec![(2, 4), (3, 2), (3, 4), (4, 3), (4, 4)]);
}

#[test]
fn glider_passes_through_its_four_phases() {
    let mut universe = Universe::empty(10, 10);
    universe.spawn_glider(2, 2);
    universe.tick();
    assert_eq!(live_cells(&universe), vec![(1, 2), (2, 3), (2, 4), (3, 2), (3, 3)]);
    universe.tick();
    assert_eq!(live_cells(&universe), vec![(1, 3), (2, 4), (3, 2), (3, 3), (3, 4)]);
    universe.tick();
    assert_eq!(live_cells(&universe), vec![(2, 2), (2, 4), (3, 3), (3, 4), (4, 3)]);
    universe.tick();
    assert_eq!(live_cells(&universe), vec![(2, 4), (3, 2), (3, 4), (4, 3), (4, 4)]);
}

#[test]
fn glider_keeps_moving_across_the_edge() {
    let mut universe = Universe::empty(6, 6);
    universe.spawn_glider(1, 1);
    for _ in 0..24 {
        universe.tick();
    }
    let mut expected = Universe::empty(6, 6);
    expected.spawn_glider(1, 1);
    assert_eq!(universe.get_cells(), expected.get_cells());
}

#[test]
fn pulsar_has_forty_eight_cells() {
    let mut universe = Universe::empty(17, 17);
    universe.spawn_pulsar(8, 8);
    assert_eq!(universe.get_cells().count_ones(..), 48);
    assert_eq!(live_cells(&universe), sorted(pulsar_cells(8, 8)));
    let rows: Vec<u32> = live_cells(&universe).iter().filter(|c| c.1 == 2).map(|c| c.0).collect();
    assert_eq!(rows, vec![4, 5, 6, 10, 11, 12]);
    let cols: Vec<u32> = live_cells(&universe).iter().filter(|c| c.0 == 7).map(|c| c.1).collect();
    assert_eq!(cols, vec![4, 5, 6, 10, 11, 12]);
    let cols: Vec<u32> = live_cells(&universe).iter().filter(|c| c.0 == 5).map(|c| c.1).collect();
    assert_eq!(cols, vec![2, 7, 9, 14]);
}

#[test]
fn pulsar_off_center_on_a_wide_board() {
    let mut universe = Universe::empty(40, 20);
    universe.spawn_pulsar(6, 33);
    assert_eq!(universe.get_cells().count_ones(..), 48);
    assert_eq!(live_cells(&universe), sorted(pulsar_cells(6, 33)));
    assert!(alive(&universe, 0, 29));
    assert!(alive(&universe, 12, 37));
    assert!(alive(&universe, 2, 39));
    assert!(!alive(&universe, 6, 33));
}

#[test]
fn pulsar_returns_after_three_generations() {
    let mut universe = Universe::empty(20, 20);
    universe.spawn_pulsar(9, 10);
    let start = universe.get_cells().clone();
    universe.tick();
    assert_ne!(universe.get_cells(), &start);
    assert_eq!(universe.get_cells().count_ones(..), 56);
    universe.tick();
    assert_ne!(universe.get_cells(), &start);
    assert_eq!(universe.get_cells().count_ones(..), 72);
    universe.tick();
    assert_eq!(universe.get_cells(), &start);
    assert_eq!(universe.get_cells().count_ones(..), 48);
}

#[test]
fn pulsar_returns_on_the_smallest_board_that_keeps_it_off_the_edges() {
    let mut universe = Universe::empty(17, 17);
    universe.spawn_pulsar(8, 8);
    let start = universe.get_cells().clone();
    for _ in 0..3 {
        universe.tick();
    }
    assert_eq!(universe.get_cells(), &start);
    for _ in 0..3 {
        universe.tick();
    }
    assert_eq!(universe.get_cells(), &start);
}

#[test]
fn pulsar_touching_the_edges_is_placed_but_does_not_return() {
    let mut universe = Universe::empty(13, 13);
    universe.spawn_pulsar(6, 6);
    assert_eq!(universe.get_cells().count_ones(..), 48);
    assert_eq!(live_cells(&universe), sorted(pulsar_cells(6, 6)));
    let start = universe.get_cells().clone();
    for _ in 0..3 {
        universe.tick();
    }
    assert_ne!(universe.get_cells(), &start);
}

#[test]
fn spawning_keeps_the_cells_that_were_alive() {
    let mut universe = board(20, 20, &[(0, 0), (10, 10), (9, 11)]);
    universe.spawn_glider(10, 10);
    assert_eq!(universe.get_cells().count_ones(..), 7);
    // The pulsar shares (9, 11) and (11, 11) with the glider.
    universe.spawn_pulsar(10, 9);
    assert_eq!(universe.get_cells().count_ones(..), 7 + 48 - 2);
    assert!(alive(&universe, 0, 0));
    assert!(alive(&universe, 10, 10));
    assert!(alive(&universe, 10, 9));
}

#[test]
fn set_width_gives_a_dead_board_of_the_new_size() {
    let mut universe = Universe::new(12, 9);
    universe.set_cells(&[(0, 0), (8, 11)]);
    universe.set_width(5);
    assert_eq!(universe.width(), 5);
    assert_eq!(universe.height(), 9);
    assert_eq!(universe.get_cells().len(), 45);
    assert!(universe.get_cells().is_clear());
    universe.set_cells(&[(8, 4)]);
    universe.set_width(30);
    assert_eq!(universe.width(), 30);
    assert_eq!(universe.get_cells().len(), 270);
    assert!(universe.get_cells().is_clear());
}

#[test]
fn set_height_gives_a_dead_board_of_the_new_size() {
    let mut universe = Universe::new(12, 9);
    universe.set_cells(&[(0, 0), (8, 11)]);
    universe.set_height(4);
    assert_eq!(universe.width(), 12);
    assert_eq!(universe.height(), 4);
    assert_eq!(universe.get_cells().len(), 48);
    assert!(universe.get_cells().is_clear());
    universe.set_cells(&[(3, 11)]);
    universe.set_height(20);
    assert_eq!(universe.height(), 20);
    assert_eq!(universe.get_cells().len(), 240);
    assert!(universe.get_cells().is_clear());
}

#[test]
fn set_width_to_the_same_width_still_clears_the_board() {
    let mut universe = board(6, 6, &[(1, 1), (2, 2)]);
    universe.set_width(6);
    assert_eq!(universe.width(), 6);
    assert!(universe.get_cells().is_clear());
    let mut universe = board(6, 6, &[(1, 1), (2, 2)]);
    universe.set_height(6);
    assert!(universe.get_cells().is_clear());
}

#[test]
fn a_resized_board_can_be_played_on() {
    let mut universe = Universe::empty(4, 4);
    universe.set_width(8);
    universe.set_height(8);
    universe.spawn_glider(3, 3);
    for _ in 0..4 {
        universe.tick();
    }
    let mut expected = Universe::empty(8, 8);
    expected.spawn_glider(4, 4);
    assert_eq!(universe.get_cells(), expected.get_cells());
}

#[test]
fn cell_states_are_zero_and_one() {
    assert_eq!(Cell::Dead as u8, 0);
    assert_eq!(Cell::Alive as u8, 1);
    assert_ne!(Cell::Dead, Cell::Alive);
    assert_eq!(Cell::Alive.clone(), Cell::Alive);
}

#[test]
fn timers_leave_the_board_alone() {
    let mut universe = board(5, 5, &[(2, 1), (2, 2), (2, 3)]);
    {
        let _timer = Timer::new("outer");
        let _inner = Timer::new("inner");
        universe.tick();
    }
    assert_eq!(live_cells(&universe), vec![(1, 2), (2, 2), (3, 2)]);
}
