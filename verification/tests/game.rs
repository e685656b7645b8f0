use snake_core::Cell;
use snake_core::Direction;
use snake_core::Snake;
use snake_core::Universe;

fn alive_count(cells: &[Cell]) -> usize {
    let mut n = 0;
    for c in cells {
        if *c == Cell::Alive {
            n += 1;
        }
    }
    n
}

fn apple_count(cells: &[Cell]) -> usize {
    let mut n = 0;
    for c in cells {
        if *c == Cell::Apple {
            n += 1;
        }
    }
    n
}

#[test]
fn snake_new_has_tail_then_head() {
    let s = Snake::new((0, 1), (0, 0));
    assert_eq!(s.head(), (0, 1));
    assert_eq!(s.tail(), (0, 0));
}

#[test]
fn snake_advances_head_in_heading() {
    let mut s = Snake::new((0, 1), (0, 0));
    s.advance_head();
    assert_eq!(s.head(), (0, 2));
    assert_eq!(s.tail(), (0, 0));
}

#[test]
fn snake_advance_tail_drops_oldest() {
    let mut s = Snake::new((0, 1), (0, 0));
    s.advance_head();
    s.advance_tail();
    assert_eq!(s.tail(), (0, 1));
    assert_eq!(s.head(), (0, 2));
}

#[test]
fn new_seeds_two_alive_and_one_apple() {
    let u = Universe::new(4, 4, 15);
    let cells = u.get_cells();
    assert_eq!(cells.len(), 16);
    assert_eq!(cells[0], Cell::Alive);
    assert_eq!(cells[1], Cell::Alive);
    assert_eq!(cells[15], Cell::Apple);
    assert_eq!(alive_count(cells), 2);
    assert_eq!(apple_count(cells), 1);
    assert_eq!(u.width(), 4);
    assert_eq!(u.height(), 4);
    assert_eq!(u.score(), 0);
    assert_eq!(u.direction(), Direction::Right);
    assert_eq!(u.snake_length(), 2);
    assert_eq!(u.snake_head(), (0, 1));
}

#[test]
fn new_apple_scan_skips_alive_cells() {
    // the draw points at the snake's tail cell; the scan walks forward to
    // the first non-Alive cell
    let u = Universe::new(2, 2, 0);
    let cells = u.get_cells();
    assert_eq!(cells[2], Cell::Apple);
    assert_eq!(cells[0], Cell::Alive);
    assert_eq!(cells[1], Cell::Alive);
    assert_eq!(cells[3], Cell::Dead);
}

#[test]
fn new_apple_scan_wraps_modulo_area() {
    // seed 7 on a 2 by 2 grid starts the scan at index 3
    let u = Universe::new(2, 2, 7);
    assert_eq!(u.get_cells()[3], Cell::Apple);
}

#[test]
fn place_apple_forces_a_cell() {
    let mut u = Universe::new(4, 4, 15);
    u.place_apple(1, 2);
    assert_eq!(u.get_cells()[6], Cell::Apple);
}

#[test]
fn place_random_apple_skips_alive_cells() {
    let mut u = Universe::new(4, 4, 15);
    let placed = u.place_random_apple(0);
    assert!(placed);
    assert_eq!(u.get_cells()[2], Cell::Apple);
}

#[test]
fn place_random_apple_reports_full_board() {
    let mut u = Universe::new(2, 2, 0);
    u.set_cells(&[(0, 0), (0, 1), (1, 0), (1, 1)]);
    let placed = u.place_random_apple(3);
    assert!(!placed);
    assert_eq!(alive_count(u.get_cells()), 4);
}

#[test]
fn toggle_cell_cycles_dead_and_alive() {
    let mut u = Universe::new(4, 4, 15);
    u.toggle_cell(2, 3);
    assert_eq!(u.get_cells()[11], Cell::Alive);
    u.toggle_cell(2, 3);
    assert_eq!(u.get_cells()[11], Cell::Dead);
}

#[test]
fn toggle_cell_leaves_apple_alone() {
    let u0 = Universe::new(2, 2, 0);
    assert_eq!(u0.get_cells()[2], Cell::Apple);
    let mut u = u0;
    u.toggle_cell(1, 0);
    assert_eq!(u.get_cells()[2], Cell::Apple);
}

#[test]
fn set_cells_forces_listed_cells_alive() {
    let mut u = Universe::new(4, 4, 15);
    u.set_cells(&[(2, 2), (3, 1)]);
    let cells = u.get_cells();
    assert_eq!(cells[10], Cell::Alive);
    assert_eq!(cells[13], Cell::Alive);
    assert_eq!(cells[0], Cell::Alive);
    assert_eq!(cells[15], Cell::Apple);
    assert_eq!(alive_count(cells), 4);
}

#[test]
fn set_width_wipes_grid_to_dead() {
    let mut u = Universe::new(4, 4, 15);
    u.set_width(5);
    assert_eq!(u.width(), 5);
    assert_eq!(u.height(), 4);
    let cells = u.get_cells();
    assert_eq!(cells.len(), 20);
    assert_eq!(alive_count(cells), 0);
    assert_eq!(apple_count(cells), 0);
    assert_eq!(u.snake_length(), 2);
    assert_eq!(u.score(), 0);
}

#[test]
fn set_height_wipes_grid_to_dead() {
    let mut u = Universe::new(4, 4, 15);
    u.set_height(3);
    assert_eq!(u.width(), 4);
    assert_eq!(u.height(), 3);
    let cells = u.get_cells();
    assert_eq!(cells.len(), 12);
    assert_eq!(alive_count(cells), 0);
    assert_eq!(apple_count(cells), 0);
}

#[test]
fn restart_with_same_draw_is_identical() {
    let mut u = Universe::new(4, 4, 9);
    u.place_apple(0, 2);
    assert!(u.tick(15));
    u.restart(6);
    let first: Vec<Cell> = u.get_cells().to_vec();
    let first_head = u.snake_head();
    u.restart(6);
    let second: Vec<Cell> = u.get_cells().to_vec();
    assert_eq!(first, second);
    assert_eq!(u.score(), 0);
    assert_eq!(u.snake_length(), 2);
    assert_eq!(u.snake_head(), first_head);
    assert_eq!(u.direction(), Direction::Right);
}

#[test]
fn restarts_differ_only_at_the_apple() {
    let mut u1 = Universe::new(4, 4, 0);
    let mut u2 = Universe::new(4, 4, 0);
    u1.restart(5);
    u2.restart(6);
    let c1 = u1.get_cells();
    let c2 = u2.get_cells();
    assert_eq!(c1.len(), c2.len());
    for i in 0..c1.len() {
        if c1[i] != c2[i] {
            assert!(c1[i] == Cell::Apple || c2[i] == Cell::Apple);
        }
    }
    assert_eq!(u1.score(), u2.score());
    assert_eq!(u1.snake_length(), u2.snake_length());
    assert_eq!(u1.snake_head(), u2.snake_head());
}

#[test]
fn tick_onto_apple_grows_and_scores() {
    // 4 by 4 grid, snake head (0, 1), tail (0, 0), heading Right, apple
    // forced at (0, 2): the tick eats it
    let mut u = Universe::new(4, 4, 15);
    u.place_apple(0, 2);
    let alive = u.tick(15);
    assert!(alive);
    assert_eq!(u.score(), 1);
    assert_eq!(u.snake_length(), 3);
    assert_eq!(u.snake_head(), (0, 2));
    let cells = u.get_cells();
    assert_eq!(cells[2], Cell::Alive);
    assert_eq!(cells[0], Cell::Alive);
    assert_eq!(apple_count(cells), 1);
}

#[test]
fn tick_onto_dead_moves_without_growing() {
    let mut u = Universe::new(4, 4, 15);
    let alive = u.tick(15);
    assert!(alive);
    assert_eq!(u.score(), 0);
    assert_eq!(u.snake_length(), 2);
    assert_eq!(u.snake_head(), (0, 2));
    let cells = u.get_cells();
    assert_eq!(cells[0], Cell::Dead);
    assert_eq!(cells[1], Cell::Alive);
    assert_eq!(cells[2], Cell::Alive);
    assert_eq!(cells[15], Cell::Apple);
}

#[test]
fn tick_scores_twice_for_two_apples() {
    let mut u = Universe::new(4, 4, 15);
    u.place_apple(0, 2);
    assert!(u.tick(15));
    u.place_apple(0, 3);
    assert!(u.tick(15));
    assert_eq!(u.score(), 2);
    assert_eq!(u.snake_length(), 4);
    assert_eq!(u.snake_head(), (0, 3));
}

#[test]
fn tick_off_the_right_edge_fails() {
    // 2 by 2 grid, head (0, 1) heading Right: the new head column 2 is
    // outside the grid
    let mut u = Universe::new(2, 2, 0);
    let alive = u.tick(0);
    assert!(!alive);
    assert_eq!(u.score(), 0);
    // the body has already grown by the out-of-bounds head
    assert_eq!(u.snake_length(), 3);
    let cells = u.get_cells();
    assert_eq!(cells[0], Cell::Alive);
    assert_eq!(cells[1], Cell::Alive);
    assert_eq!(cells[2], Cell::Apple);
}

#[test]
fn tick_off_the_top_edge_fails() {
    // moving Up from row 0 would leave the grid before the head can even
    // be represented; the state is left untouched
    let mut u = Universe::new(4, 4, 15);
    u.set_direction(Direction::Up);
    let alive = u.tick(15);
    assert!(!alive);
    assert_eq!(u.snake_length(), 2);
    assert_eq!(u.score(), 0);
    assert_eq!(u.get_cells()[15], Cell::Apple);
}

#[test]
fn tick_off_the_left_edge_fails() {
    let mut u = Universe::new(4, 4, 15);
    u.set_direction(Direction::Down);
    assert!(u.tick(15));
    u.set_direction(Direction::Left);
    assert!(u.tick(15));
    assert_eq!(u.snake_head(), (1, 0));
    let alive = u.tick(15);
    assert!(!alive);
    assert_eq!(u.snake_length(), 2);
}

#[test]
fn tick_onto_own_body_fails() {
    // grow to cover (0, 0), (0, 1), (1, 1), then steer the head from
    // heading Right up onto (0, 1), its own body
    let mut u = Universe::new(4, 4, 15);
    u.set_direction(Direction::Down);
    u.place_apple(1, 1);
    assert!(u.tick(15));
    assert_eq!(u.score(), 1);
    assert_eq!(u.snake_length(), 3);
    assert_eq!(u.snake_head(), (1, 1));
    u.set_direction(Direction::Right);
    u.set_direction(Direction::Up);
    let alive = u.tick(15);
    assert!(!alive);
    assert_eq!(u.score(), 1);
    // the body is left in the grown-but-unreconciled state
    assert_eq!(u.snake_length(), 4);
}

#[test]
fn set_direction_rejects_reversal() {
    let mut u = Universe::new(4, 4, 15);
    u.set_direction(Direction::Down);
    u.set_direction(Direction::Up);
    assert_eq!(u.direction(), Direction::Down);
}

#[test]
fn set_direction_rejects_reversal_from_start() {
    let mut u = Universe::new(4, 4, 15);
    u.set_direction(Direction::Left);
    assert_eq!(u.direction(), Direction::Right);
}

#[test]
fn set_direction_accepts_turns() {
    let mut u = Universe::new(4, 4, 15);
    u.set_direction(Direction::Up);
    assert_eq!(u.direction(), Direction::Up);
    u.set_direction(Direction::Right);
    assert_eq!(u.direction(), Direction::Right);
    u.set_direction(Direction::Right);
    assert_eq!(u.direction(), Direction::Right);
}

#[test]
fn cells_encode_as_renderer_bytes() {
    let u = Universe::new(2, 2, 0);
    let encoded = u.cells_encoded();
    assert_eq!(encoded, vec![1, 1, 2, 0]);
    assert_eq!(Cell::Dead.code(), 0);
    assert_eq!(Cell::Alive.code(), 1);
    assert_eq!(Cell::Apple.code(), 2);
}
