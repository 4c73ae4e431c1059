use snake_game::game::{
    update_game_logic, Food, GameContext, GameState, PlayerDirection, PlayerObject,
    START_MARGIN,
};
use snake_game::grid::{initialize_points, Grid, Point};

fn pt(x: i32, y: i32) -> Point {
    Point { x, y }
}

fn snake(cells: &[(i32, i32)], direction: PlayerDirection) -> PlayerObject {
    PlayerObject {
        player_position: cells.iter().map(|&(x, y)| pt(x, y)).collect(),
        player_direction: direction,
        prev_direction: direction,
    }
}

fn game(cells: &[(i32, i32)], direction: PlayerDirection, food: (i32, i32)) -> GameContext {
    GameContext {
        state: GameState::Playing,
        food_index: Food { location: pt(food.0, food.1) },
        player: snake(cells, direction),
        grid: Grid { width: 20, height: 15 },
    }
}

fn on_grid(grid: &Grid, p: Point) -> bool {
    0 <= p.x && p.x < grid.width && 0 <= p.y && p.y < grid.height
}

#[test]
fn opposite_directions() {
    assert_eq!(PlayerDirection::Up.opposite(), PlayerDirection::Down);
    assert_eq!(PlayerDirection::Down.opposite(), PlayerDirection::Up);
    assert_eq!(PlayerDirection::Left.opposite(), PlayerDirection::Right);
    assert_eq!(PlayerDirection::Right.opposite(), PlayerDirection::Left);
}

#[test]
fn collision_on_duplicate_head() {
    let p = snake(&[(5, 5), (5, 5)], PlayerDirection::Down);
    assert!(p.check_collision());
}

#[test]
fn no_collision_when_cells_distinct() {
    let p = snake(&[(5, 5), (5, 6), (6, 6), (6, 5)], PlayerDirection::Up);
    assert!(!p.check_collision());
}

#[test]
fn reverse_request_is_ignored() {
    let mut p = snake(&[(5, 5), (5, 4)], PlayerDirection::Down);
    p.change_direction(PlayerDirection::Up);
    assert_eq!(p.player_direction, PlayerDirection::Down);
    p.change_direction(PlayerDirection::Left);
    assert_eq!(p.player_direction, PlayerDirection::Left);
}

#[test]
fn guard_uses_last_completed_tick() {
    let mut g = game(&[(5, 5), (5, 4)], PlayerDirection::Down, (0, 0));
    g.set_direction(PlayerDirection::Left);
    assert_eq!(g.player.player_direction, PlayerDirection::Left);
    // Still checked against Down, the direction of the last tick.
    g.set_direction(PlayerDirection::Right);
    assert_eq!(g.player.player_direction, PlayerDirection::Right);
    g.set_direction(PlayerDirection::Up);
    assert_eq!(g.player.player_direction, PlayerDirection::Right);
    update_game_logic(&mut g);
    assert_eq!(g.player.prev_direction, PlayerDirection::Right);
    g.set_direction(PlayerDirection::Left);
    assert_eq!(g.player.player_direction, PlayerDirection::Right);
}

#[test]
fn eating_grows_and_moves_food() {
    let mut g = game(&[(5, 5), (4, 5)], PlayerDirection::Right, (6, 5));
    update_game_logic(&mut g);
    assert_eq!(g.player.player_position, vec![pt(6, 5), pt(5, 5), pt(4, 5)]);
    assert!(!g.player.player_position.contains(&g.food_index.location));
    assert!(on_grid(&g.grid, g.food_index.location));
    assert_eq!(g.state, GameState::Playing);
}

#[test]
fn tick_scenario_eats_food_below() {
    let mut g = game(&[(5, 5), (4, 5)], PlayerDirection::Down, (5, 6));
    update_game_logic(&mut g);
    assert_eq!(g.player.player_position, vec![pt(5, 6), pt(5, 5), pt(4, 5)]);
    assert_eq!(g.player.player_position.len(), 3);
    let food = g.food_index.location;
    assert_ne!(food, pt(5, 6));
    assert_ne!(food, pt(5, 5));
    assert_ne!(food, pt(4, 5));
    assert_eq!(g.state, GameState::Playing);
}

#[test]
fn plain_move_drops_tail() {
    let mut g = game(&[(5, 5), (4, 5), (3, 5)], PlayerDirection::Right, (0, 0));
    update_game_logic(&mut g);
    assert_eq!(g.player.player_position, vec![pt(6, 5), pt(5, 5), pt(4, 5)]);
    assert_eq!(g.food_index.location, pt(0, 0));
    assert_eq!(g.state, GameState::Playing);
}

#[test]
fn moves_in_each_direction() {
    let cases = [
        (PlayerDirection::Up, pt(5, 4)),
        (PlayerDirection::Down, pt(5, 6)),
        (PlayerDirection::Left, pt(4, 5)),
        (PlayerDirection::Right, pt(6, 5)),
    ];
    for (d, expected) in cases {
        let mut g = game(&[(5, 5), (5, 5)], d, (0, 0));
        g.player.player_position = vec![pt(5, 5), pt(10, 10)];
        update_game_logic(&mut g);
        assert_eq!(g.player.player_position, vec![expected, pt(5, 5)]);
    }
}

#[test]
fn reversing_into_neck_loses_and_stays_lost() {
    // A 2x2 turn heading up; forcing Down puts the head on the second segment.
    let mut g = game(&[(5, 5), (5, 6), (6, 6), (6, 5)], PlayerDirection::Up, (0, 0));
    g.player.player_direction = PlayerDirection::Down;
    update_game_logic(&mut g);
    assert_eq!(g.state, GameState::Lost);
    let body = g.player.player_position.clone();
    let food = g.food_index.location;
    update_game_logic(&mut g);
    update_game_logic(&mut g);
    assert_eq!(g.state, GameState::Lost);
    assert_eq!(g.player.player_position, body);
    assert_eq!(g.food_index.location, food);
    g.restart();
    assert_eq!(g.state, GameState::Playing);
    assert_eq!(g.player.player_position.len(), 2);
}

#[test]
fn leaving_the_grid_loses() {
    let mut g = game(&[(0, 5), (1, 5)], PlayerDirection::Left, (7, 7));
    update_game_logic(&mut g);
    assert_eq!(g.state, GameState::Lost);
    assert_eq!(g.player.player_position, vec![pt(0, 5), pt(1, 5)]);
    assert_eq!(g.food_index.location, pt(7, 7));

    let mut g = game(&[(19, 14), (18, 14)], PlayerDirection::Down, (7, 7));
    update_game_logic(&mut g);
    assert_eq!(g.state, GameState::Lost);
}

#[test]
fn length_never_shrinks_over_a_run() {
    let mut g = GameContext::new_game(20, 15);
    let mut len = g.player.player_position.len();
    let turns = [
        PlayerDirection::Left,
        PlayerDirection::Up,
        PlayerDirection::Right,
        PlayerDirection::Down,
    ];
    for step in 0..200 {
        if step % 3 == 0 {
            g.set_direction(turns[(step / 3) % 4]);
        }
        let playing = g.state == GameState::Playing;
        update_game_logic(&mut g);
        let new_len = g.player.player_position.len();
        if playing {
            assert!(new_len == len || new_len == len + 1);
        } else {
            assert_eq!(new_len, len);
        }
        len = new_len;
        if g.state == GameState::Lost {
            g.restart();
            len = g.player.player_position.len();
        }
    }
}

fn check_fresh(g: &GameContext) {
    assert_eq!(g.state, GameState::Playing);
    let body = &g.player.player_position;
    assert_eq!(body.len(), 2);
    assert!(START_MARGIN <= body[0].x && body[0].x <= g.grid.width - 1 - START_MARGIN);
    assert!(START_MARGIN <= body[0].y && body[0].y <= g.grid.height - 1 - START_MARGIN);
    assert_eq!(body[1], pt(body[0].x + 1, body[0].y));
    assert_eq!(g.player.player_direction, PlayerDirection::Down);
    assert_eq!(g.player.prev_direction, PlayerDirection::Down);
    assert!(!body.contains(&g.food_index.location));
    assert!(on_grid(&g.grid, g.food_index.location));
}

#[test]
fn restart_twice_from_lost() {
    let mut g = game(&[(5, 5), (5, 5)], PlayerDirection::Down, (0, 0));
    g.state = GameState::Lost;
    g.restart();
    check_fresh(&g);
    g.restart();
    check_fresh(&g);
    assert_eq!(g.grid, Grid { width: 20, height: 15 });
}

#[test]
fn new_game_is_fresh() {
    for _ in 0..50 {
        let g = GameContext::new_game(20, 15);
        check_fresh(&g);
        assert_eq!(g.grid, Grid { width: 20, height: 15 });
    }
    let small = GameContext::new_game(7, 7);
    check_fresh(&small);
    assert_eq!(small.player.player_position[0], pt(3, 3));
}

#[test]
fn add_tail_goes_behind() {
    let mut p = snake(&[(5, 5), (4, 5)], PlayerDirection::Right);
    p.add_tail();
    assert_eq!(p.player_position, vec![pt(5, 5), pt(4, 5), pt(3, 5)]);
    let mut p = snake(&[(5, 5), (5, 4)], PlayerDirection::Down);
    p.add_tail();
    assert_eq!(p.player_position, vec![pt(5, 5), pt(5, 4), pt(5, 3)]);
}

#[test]
fn food_collides_with_any_segment() {
    let p = snake(&[(5, 5), (4, 5), (3, 5)], PlayerDirection::Right);
    assert!(Food { location: pt(5, 5) }.collides_with_player(&p));
    assert!(Food { location: pt(3, 5) }.collides_with_player(&p));
    assert!(!Food { location: pt(6, 5) }.collides_with_player(&p));
}

#[test]
fn free_cells_skip_the_snake() {
    let g = game(&[(0, 0), (0, 1), (1, 1)], PlayerDirection::Up, (9, 9));
    let free = g.free_cells();
    assert_eq!(free.len(), 20 * 15 - 3);
    assert_eq!(free[0], pt(0, 2));
    assert_eq!(free[13], pt(1, 0));
    assert_eq!(free[14], pt(1, 2));
    assert!(!free.contains(&pt(1, 1)));
}

#[test]
fn place_food_counts_modulo_free_cells() {
    let mut g = game(&[(0, 0), (0, 1)], PlayerDirection::Up, (9, 9));
    g.place_food(0);
    assert_eq!(g.food_index.location, pt(0, 2));
    g.place_food(298);
    assert_eq!(g.food_index.location, pt(0, 2));
    g.place_food(297);
    assert_eq!(g.food_index.location, pt(19, 14));
    g.place_food(13);
    assert_eq!(g.food_index.location, pt(1, 0));
}

#[test]
fn generate_food_picks_free_cells() {
    let mut g = game(&[(0, 0), (0, 1)], PlayerDirection::Up, (0, 0));
    let mut seen = std::collections::HashSet::new();
    for _ in 0..300 {
        g.generate_food();
        let f = g.food_index.location;
        assert!(on_grid(&g.grid, f));
        assert!(!g.player.player_position.contains(&f));
        seen.insert((f.x, f.y));
    }
    assert!(seen.len() > 10);
}

#[test]
fn grid_bounds() {
    let grid = Grid { width: 20, height: 15 };
    assert!(grid.in_bounds(pt(0, 0)));
    assert!(grid.in_bounds(pt(19, 14)));
    assert!(!grid.in_bounds(pt(20, 0)));
    assert!(!grid.in_bounds(pt(0, 15)));
    assert!(!grid.in_bounds(pt(-1, 3)));
}

#[test]
fn grid_points_column_by_column() {
    let grid = Grid { width: 20, height: 15 };
    let mut points = vec![pt(-5, -5)];
    initialize_points(&mut points, &grid);
    assert_eq!(points.len(), 1 + 300);
    assert_eq!(points[0], pt(-5, -5));
    assert_eq!(points[1], pt(0, 0));
    assert_eq!(points[2], pt(0, 1));
    assert_eq!(points[16], pt(1, 0));
    assert_eq!(points[300], pt(19, 14));
}

#[test]
fn new_at_places_snake_from_draws() {
    let grid = Grid { width: 20, height: 15 };
    let p = PlayerObject::new_at(&grid, 0, 0);
    assert_eq!(p.player_position, vec![pt(3, 3), pt(4, 3)]);
    let p = PlayerObject::new_at(&grid, 13, 8);
    assert_eq!(p.player_position, vec![pt(16, 11), pt(17, 11)]);
    assert_eq!(p.player_direction, PlayerDirection::Down);
    assert_eq!(p.prev_direction, PlayerDirection::Down);
}

#[test]
fn tick_on_small_grid() {
    let mut g = GameContext {
        state: GameState::Playing,
        food_index: Food { location: pt(2, 0) },
        player: snake(&[(1, 0), (0, 0)], PlayerDirection::Right),
        grid: Grid { width: 3, height: 2 },
    };
    update_game_logic(&mut g);
    assert_eq!(g.player.player_position, vec![pt(2, 0), pt(1, 0), pt(0, 0)]);
    assert_eq!(g.state, GameState::Playing);
    let f = g.food_index.location;
    assert!(f.y == 1 && 0 <= f.x && f.x < 3);
    update_game_logic(&mut g);
    assert_eq!(g.state, GameState::Lost);
}
