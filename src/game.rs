//! The game engine: the snake, its direction, the food and the run state,
//! advanced one tick at a time.
//!
//! Boundary policy: the grid has walls. A tick whose move would take the head
//! off the grid ends the run and leaves the snake and the food where they are.

use crate::grid::{initialize_points, lemma_cells_are_the_grid, Grid, Point};
use rand::Rng;
use vstd::prelude::*;

verus! {

/// One of the four directions in which the snake can head.
#[derive(Clone, Copy, Debug, PartialEq, Eq, Structural)]
pub enum PlayerDirection {
    Up,
    Down,
    Right,
    Left,
}

impl PlayerDirection {
    /// The direction pointing the other way.
    pub open spec fn reversed(self) -> PlayerDirection {
        match self {
            PlayerDirection::Up => PlayerDirection::Down,
            PlayerDirection::Down => PlayerDirection::Up,
            PlayerDirection::Left => PlayerDirection::Right,
            PlayerDirection::Right => PlayerDirection::Left,
        }
    }

    /// Column change of one step in this direction.
    pub open spec fn dx(self) -> int {
        match self {
            PlayerDirection::Left => -1,
            PlayerDirection::Right => 1,
            _ => 0,
        }
    }

    /// Row change of one step in this direction (rows grow downwards).
    pub open spec fn dy(self) -> int {
        match self {
            PlayerDirection::Up => -1,
            PlayerDirection::Down => 1,
            _ => 0,
        }
    }

    pub fn opposite(&self) -> (r: PlayerDirection)
        ensures
            r == self.reversed(),
    {
        match self {
            PlayerDirection::Up => PlayerDirection::Down,
            PlayerDirection::Down => PlayerDirection::Up,
            PlayerDirection::Left => PlayerDirection::Right,
            PlayerDirection::Right => PlayerDirection::Left,
        }
    }
}

/// Whether one step from `p` toward `d` stays within the range of `i32`.
pub open spec fn step_fits(p: Point, d: PlayerDirection) -> bool {
    i32::MIN <= p.x + d.dx() <= i32::MAX && i32::MIN <= p.y + d.dy() <= i32::MAX
}

/// The cell one step from `p` toward `d`.
pub open spec fn step(p: Point, d: PlayerDirection) -> Point {
    Point { x: (p.x + d.dx()) as i32, y: (p.y + d.dy()) as i32 }
}

/// Whether one step from `p` toward `d` stays on `grid`.
pub open spec fn step_on_grid(grid: Grid, p: Point, d: PlayerDirection) -> bool {
    0 <= p.x + d.dx() < grid.width && 0 <= p.y + d.dy() < grid.height
}

/// Some segment other than the head lies on the head's cell.
pub open spec fn bites_itself(body: Seq<Point>) -> bool {
    exists|i: int| 1 <= i < body.len() && #[trigger] body[i] == body[0]
}

/// `a` and `b` are neighbours along one grid axis.
pub open spec fn adjacent(a: Point, b: Point) -> bool {
    ||| a.x == b.x && (a.y - b.y == 1 || b.y - a.y == 1)
    ||| a.y == b.y && (a.x - b.x == 1 || b.x - a.x == 1)
}

/// Each segment of `body` is a neighbour of the next: the snake is a path.
pub open spec fn connected(body: Seq<Point>) -> bool {
    forall|i: int| 0 <= i < body.len() - 1 ==> adjacent(#[trigger] body[i], body[i + 1])
}

/// The state of a run.
#[derive(Clone, Copy, Debug, PartialEq, Eq, Structural)]
pub enum GameState {
    Playing,
    Lost,
}

/// The snake: its cells from head to tail, the direction it will move on the
/// next tick, and the direction it moved on the last completed tick.
pub struct PlayerObject {
    pub player_position: Vec<Point>,
    pub player_direction: PlayerDirection,
    pub prev_direction: PlayerDirection,
}

impl PlayerObject {
    /// The snake's cells, head first.
    pub open spec fn body(&self) -> Seq<Point> {
        self.player_position@
    }

    pub open spec fn head(&self) -> Point {
        self.body()[0]
    }

    /// The snake after moving its head to `p` and dropping its tail.
    pub open spec fn moved_body(&self, p: Point) -> Seq<Point> {
        seq![p] + self.body().drop_last()
    }

    /// The snake after moving its head to `p` and keeping its tail.
    pub open spec fn grown_body(&self, p: Point) -> Seq<Point> {
        seq![p] + self.body()
    }

    /// Requests `new_direction` for the next tick; a request for the reverse
    /// of the last completed tick's direction is ignored.
    pub fn change_direction(&mut self, new_direction: PlayerDirection)
        ensures
            final(self).player_direction == (if new_direction == old(
                self,
            ).prev_direction.reversed() {
                old(self).player_direction
            } else {
                new_direction
            }),
            final(self).prev_direction == old(self).prev_direction,
            final(self).body() == old(self).body(),
    {
        if new_direction != self.prev_direction.opposite() {
            self.player_direction = new_direction;
        }
    }

    /// Whether a segment other than the head shares the head's cell.
    pub fn check_collision(&self) -> (r: bool)
        requires
            self.body().len() >= 1,
        ensures
            r == bites_itself(self.body()),
    {
        let head = self.player_position[0];
        let n = self.player_position.len();
        let mut i: usize = 1;
        while i < n
            invariant
                1 <= i <= n,
                n == self.body().len(),
                head == self.head(),
                forall|k: int| 1 <= k < i ==> self.body()[k] != head,
            decreases n - i,
        {
            if self.player_position[i] == head {
                return true;
            }
            i += 1;
        }
        false
    }

    /// Extends the snake by one cell behind its tail, on the side opposite to
    /// its heading.
    pub fn add_tail(&mut self)
        requires
            old(self).body().len() >= 1,
            step_fits(old(self).body().last(), old(self).player_direction.reversed()),
        ensures
            final(self).body() == old(self).body().push(
                step(old(self).body().last(), old(self).player_direction.reversed()),
            ),
            final(self).player_direction == old(self).player_direction,
            final(self).prev_direction == old(self).prev_direction,
    {
        let tail = self.player_position[self.player_position.len() - 1];
        let mut x = tail.x;
        let mut y = tail.y;
        match self.player_direction {
            PlayerDirection::Down => y -= 1,
            PlayerDirection::Up => y += 1,
            PlayerDirection::Left => x += 1,
            PlayerDirection::Right => x -= 1,
        }
        self.player_position.push(Point { x, y });
    }
}

/// The food: a single cell.
#[derive(Clone, Copy, Debug, PartialEq, Eq, Structural)]
pub struct Food {
    pub location: Point,
}

impl Food {
    /// Whether the food lies on a cell of the snake.
    pub fn collides_with_player(&self, player: &PlayerObject) -> (r: bool)
        ensures
            r == player.body().contains(self.location),
    {
        let n = player.player_position.len();
        let mut i: usize = 0;
        while i < n
            invariant
                0 <= i <= n,
                n == player.body().len(),
                forall|k: int| 0 <= k < i ==> player.body()[k] != self.location,
            decreases n - i,
        {
            if player.player_position[i] == self.location {
                return true;
            }
            i += 1;
        }
        false
    }
}

/// The cell one step ahead of `player`'s head in its current direction, as the
/// head's next position if that stays on `grid`.
pub fn next_head(player: &PlayerObject, grid: &Grid) -> (r: Option<Point>)
    requires
        player.body().len() >= 1,
        grid.contains(player.head()),
    ensures
        r == (if step_on_grid(*grid, player.head(), player.player_direction) {
            Some(step(player.head(), player.player_direction))
        } else {
            None::<Point>
        }),
{
    let head = player.player_position[0];
    match player.player_direction {
        PlayerDirection::Up => if head.y > 0 {
            Some(Point { x: head.x, y: head.y - 1 })
        } else {
            None
        },
        PlayerDirection::Down => if head.y < grid.height - 1 {
            Some(Point { x: head.x, y: head.y + 1 })
        } else {
            None
        },
        PlayerDirection::Left => if head.x > 0 {
            Some(Point { x: head.x - 1, y: head.y })
        } else {
            None
        },
        PlayerDirection::Right => if head.x < grid.width - 1 {
            Some(Point { x: head.x + 1, y: head.y })
        } else {
            None
        },
    }
}

/// Moves the snake one step in its current direction: a new head in front,
/// the tail removed.
pub fn player_movement(player: &mut PlayerObject)
    requires
        old(player).body().len() >= 1,
        step_fits(old(player).head(), old(player).player_direction),
    ensures
        final(player).body() == old(player).moved_body(
            step(old(player).head(), old(player).player_direction),
        ),
        final(player).player_direction == old(player).player_direction,
        final(player).prev_direction == old(player).prev_direction,
{
    let head = player.player_position[0];
    let new_head = match player.player_direction {
        PlayerDirection::Up => Point { x: head.x, y: head.y - 1 },
        PlayerDirection::Down => Point { x: head.x, y: head.y + 1 },
        PlayerDirection::Left => Point { x: head.x - 1, y: head.y },
        PlayerDirection::Right => Point { x: head.x + 1, y: head.y },
    };
    player.player_position.insert(0, new_head);
    player.player_position.pop();
    proof {
        assert(player.body() =~= old(player).moved_body(new_head));
    }
}

/// Distance, in cells, kept between a fresh snake and the grid's edges.
pub const START_MARGIN: i32 = 3;

/// A grid with room for a fresh snake inside the starting margin.
pub open spec fn roomy(grid: Grid) -> bool {
    grid.width >= 2 * START_MARGIN + 1 && grid.height >= 2 * START_MARGIN + 1
}

/// Whether `c` lies off the snake `body`.
pub open spec fn unoccupied(body: Seq<Point>) -> spec_fn(Point) -> bool {
    |c: Point| !body.contains(c)
}

/// The cells of `grid` that the snake `body` leaves free, in grid order.
pub open spec fn free_cells_of(grid: Grid, body: Seq<Point>) -> Seq<Point> {
    grid.cells().filter(unoccupied(body))
}

/// A snake as it starts a run: two cells side by side, head on the left,
/// inside the starting margin, heading down.
pub open spec fn fresh_player(player: &PlayerObject, grid: Grid) -> bool {
    let body = player.body();
    &&& body.len() == 2
    &&& START_MARGIN <= body[0].x <= grid.width - 1 - START_MARGIN
    &&& START_MARGIN <= body[0].y <= grid.height - 1 - START_MARGIN
    &&& body[1] == Point { x: (body[0].x + 1) as i32, y: body[0].y }
    &&& player.player_direction == PlayerDirection::Down
    &&& player.prev_direction == PlayerDirection::Down
}

/// Relies on rand's `thread_rng().gen_range(0..n)`: a number drawn from the
/// range `0..n`, which must not be empty.
#[verifier::external_body]
fn random_below(n: usize) -> (r: usize)
    requires
        n > 0,
    ensures
        r < n,
{
    rand::thread_rng().gen_range(0..n)
}

impl PlayerObject {
    /// A fresh snake whose head lies `col` columns and `row` rows inside the
    /// starting margin of `grid`, with its second cell to the right.
    pub fn new_at(grid: &Grid, col: usize, row: usize) -> (r: PlayerObject)
        requires
            roomy(*grid),
            col < grid.width - 2 * START_MARGIN,
            row < grid.height - 2 * START_MARGIN,
        ensures
            r.body() == seq![
                Point { x: (START_MARGIN + col) as i32, y: (START_MARGIN + row) as i32 },
                Point { x: (START_MARGIN + col + 1) as i32, y: (START_MARGIN + row) as i32 },
            ],
            r.player_direction == PlayerDirection::Down,
            r.prev_direction == PlayerDirection::Down,
            fresh_player(&r, *grid),
    {
        let point_x = START_MARGIN + col as i32;
        let point_y = START_MARGIN + row as i32;
        let r = PlayerObject {
            player_direction: PlayerDirection::Down,
            player_position: vec![Point { x: point_x, y: point_y }, Point { x: point_x + 1, y: point_y }],
            prev_direction: PlayerDirection::Down,
        };
        assert(r.body() =~= seq![Point { x: point_x, y: point_y }, Point { x: (point_x + 1) as i32, y: point_y }]);
        r
    }

    /// A fresh snake at a random position inside the starting margin of `grid`.
    pub fn new(grid: &Grid) -> (r: PlayerObject)
        requires
            roomy(*grid),
        ensures
            fresh_player(&r, *grid),
    {
        let span_x = grid.width - 2 * START_MARGIN;
        let span_y = grid.height - 2 * START_MARGIN;
        let col = random_below(span_x as usize);
        let row = random_below(span_y as usize);
        Self::new_at(grid, col, row)
    }
}

/// The whole state of a game: the grid, the snake, the food and the run state.
pub struct GameContext {
    pub state: GameState,
    pub food_index: Food,
    pub player: PlayerObject,
    pub grid: Grid,
}

impl GameContext {
    /// The snake has a head and a neck, and it and the food lie on a grid of
    /// at least one cell.
    pub open spec fn wf(&self) -> bool {
        &&& self.grid.valid()
        &&& self.player.body().len() >= 2
        &&& forall|i: int|
            0 <= i < self.player.body().len() ==> self.grid.contains(#[trigger] self.player.body()[i])
        &&& self.grid.contains(self.food_index.location)
    }

    /// The cells that the snake leaves free.
    pub open spec fn free(&self) -> Seq<Point> {
        free_cells_of(self.grid, self.player.body())
    }

    /// The cell the head moves to on the next tick.
    pub open spec fn next_cell(&self) -> Point {
        step(self.player.head(), self.player.player_direction)
    }

    /// The next tick's move stays on the grid.
    pub open spec fn move_on_grid(&self) -> bool {
        step_on_grid(self.grid, self.player.head(), self.player.player_direction)
    }

    /// The next tick's move lands on the food.
    pub open spec fn eats(&self) -> bool {
        self.next_cell() == self.food_index.location
    }

    /// The snake after the next tick's move, which keeps the tail when the
    /// food is eaten.
    pub open spec fn body_after_move(&self) -> Seq<Point> {
        if self.eats() {
            self.player.grown_body(self.next_cell())
        } else {
            self.player.moved_body(self.next_cell())
        }
    }

    /// The cells that the snake leaves free, in grid order.
    pub fn free_cells(&self) -> (r: Vec<Point>)
        requires
            self.grid.valid(),
        ensures
            r@ == self.free(),
    {
        let mut all: Vec<Point> = Vec::new();
        initialize_points(&mut all, &self.grid);
        assert(all@ =~= self.grid.cells());
        let ghost pred = unoccupied(self.player.body());
        let mut free: Vec<Point> = Vec::new();
        let mut i: usize = 0;
        while i < all.len()
            invariant
                0 <= i <= all.len(),
                all@ == self.grid.cells(),
                pred == unoccupied(self.player.body()),
                free@ == all@.take(i as int).filter(pred),
            decreases all.len() - i,
        {
            let c = all[i];
            let on_snake = Food { location: c }.collides_with_player(&self.player);
            if !on_snake {
                free.push(c);
            }
            proof {
                let prefix = all@.take(i + 1);
                assert(prefix.drop_last() =~= all@.take(i as int));
                assert(prefix.last() == c);
                reveal(Seq::filter);
            }
            i += 1;
        }
        assert(all@.take(all.len() as int) =~= all@);
        free
    }

    /// Moves the food to free cell number `pick`, counted modulo the number of
    /// free cells; with no free cell the food stays where it is.
    pub fn place_food(&mut self, pick: usize)
        requires
            old(self).grid.valid(),
        ensures
            final(self).food_index == (if old(self).free().len() > 0 {
                Food { location: old(self).free()[pick as int % old(self).free().len() as int] }
            } else {
                old(self).food_index
            }),
            final(self).player == old(self).player,
            final(self).state == old(self).state,
            final(self).grid == old(self).grid,
    {
        let free = self.free_cells();
        if free.len() > 0 {
            self.food_index = Food { location: free[pick % free.len()] };
        }
    }

    /// Moves the food to a free cell drawn at random; with no free cell the
    /// food stays where it is.
    pub fn generate_food(&mut self)
        requires
            old(self).grid.valid(),
        ensures
            old(self).free().len() > 0 ==> old(self).free().contains(final(self).food_index.location),
            old(self).free().len() > 0 ==> !final(self).player.body().contains(
                final(self).food_index.location,
            ),
            old(self).free().len() > 0 ==> final(self).grid.contains(final(self).food_index.location),
            old(self).free().len() == 0 ==> final(self).food_index == old(self).food_index,
            final(self).player == old(self).player,
            final(self).state == old(self).state,
            final(self).grid == old(self).grid,
    {
        let n = self.free_cells().len();
        if n > 0 {
            let k = random_below(n);
            self.place_food(k);
            proof {
                let free = old(self).free();
                let loc = self.food_index.location;
                vstd::arithmetic::div_mod::lemma_small_mod(k as nat, n as nat);
                assert(free[k as int] == loc);
                old(self).grid.cells().lemma_filter_pred(unoccupied(old(self).player.body()), k as int);
                old(self).grid.cells().lemma_filter_contains_rev(unoccupied(old(self).player.body()), loc);
                lemma_cells_are_the_grid(old(self).grid, loc);
            }
        }
    }

    /// A fresh run on a `width` by `height` grid: a fresh snake at a random
    /// position and the food on a random free cell.
    pub fn new_game(width: i32, height: i32) -> (r: GameContext)
        requires
            width >= 2 * START_MARGIN + 1,
            height >= 2 * START_MARGIN + 1,
        ensures
            r.wf(),
            r.grid == (Grid { width, height }),
            r.state == GameState::Playing,
            fresh_player(&r.player, r.grid),
            connected(r.player.body()),
            r.player.body().no_duplicates(),
            r.free().contains(r.food_index.location),
            !r.player.body().contains(r.food_index.location),
    {
        let grid = Grid { width, height };
        let mut game = GameContext {
            state: GameState::Playing,
            food_index: Food { location: Point { x: 0, y: 0 } },
            player: PlayerObject::new(&grid),
            grid,
        };
        game.restart();
        game
    }

    /// Resets the run: a fresh snake at a random position, the food on a
    /// random free cell, and the state back to `Playing`. The grid stays.
    pub fn restart(&mut self)
        requires
            roomy(old(self).grid),
        ensures
            final(self).wf(),
            final(self).grid == old(self).grid,
            final(self).state == GameState::Playing,
            fresh_player(&final(self).player, final(self).grid),
            connected(final(self).player.body()),
            final(self).player.body().no_duplicates(),
            final(self).free().contains(final(self).food_index.location),
            !final(self).player.body().contains(final(self).food_index.location),
    {
        self.player = PlayerObject::new(&self.grid);
        self.state = GameState::Playing;
        proof {
            lemma_fresh_player_leaves_room(&self.player, self.grid);
        }
        self.generate_food();
    }

    /// Requests `new_direction` for the next tick; see
    /// [`PlayerObject::change_direction`].
    pub fn set_direction(&mut self, new_direction: PlayerDirection)
        ensures
            final(self).player.player_direction == (if new_direction == old(
                self,
            ).player.prev_direction.reversed() {
                old(self).player.player_direction
            } else {
                new_direction
            }),
            final(self).player.prev_direction == old(self).player.prev_direction,
            final(self).player.body() == old(self).player.body(),
            final(self).food_index == old(self).food_index,
            final(self).state == old(self).state,
            final(self).grid == old(self).grid,
    {
        self.player.change_direction(new_direction);
    }
}

/// A point on the grid that the snake does not cover is one of the free
/// cells, so there is a free cell.
pub proof fn lemma_free_cell(grid: Grid, body: Seq<Point>, p: Point)
    requires
        grid.valid(),
        grid.contains(p),
        !body.contains(p),
    ensures
        free_cells_of(grid, body).contains(p),
        free_cells_of(grid, body).len() > 0,
{
    let i = p.x * grid.height + p.y;
    lemma_cells_are_the_grid(grid, p);
    assert(grid.cells()[i] == p);
    assert(unoccupied(body)(p));
    grid.cells().lemma_filter_contains(unoccupied(body), p.x * grid.height + p.y);
}

/// A fresh snake leaves the top-left corner, and so some cell, free.
proof fn lemma_fresh_player_leaves_room(player: &PlayerObject, grid: Grid)
    requires
        roomy(grid),
        fresh_player(player, grid),
    ensures
        free_cells_of(grid, player.body()).len() > 0,
{
    let corner = Point { x: 0, y: 0 };
    assert(!player.body().contains(corner));
    lemma_free_cell(grid, player.body(), corner);
}

/// Advances the game by one tick. While the run is lost nothing changes.
/// Otherwise the head moves one cell in the current direction; a move off the
/// grid ends the run and changes nothing else. On the grid, the new head goes
/// in front; if it lands on the food the tail stays and the food moves to a
/// random free cell, else the tail is removed. The run is lost if the head now
/// shares a cell with another segment, and the direction just applied becomes
/// the one that the next direction change is checked against.
pub fn update_game_logic(game: &mut GameContext)
    requires
        old(game).wf(),
    ensures
        final(game).wf(),
        final(game).grid == old(game).grid,
        old(game).state == GameState::Lost ==> *final(game) == *old(game),
        old(game).state == GameState::Playing && !old(game).move_on_grid() ==> {
            &&& final(game).state == GameState::Lost
            &&& final(game).player == old(game).player
            &&& final(game).food_index == old(game).food_index
        },
        old(game).state == GameState::Playing && old(game).move_on_grid() ==> {
            let body = old(game).body_after_move();
            let dir = old(game).player.player_direction;
            &&& final(game).player.body() == body
            &&& final(game).player.player_direction == dir
            &&& final(game).player.prev_direction == dir
            &&& final(game).state == (if bites_itself(body) {
                GameState::Lost
            } else {
                GameState::Playing
            })
            &&& old(game).eats() ==> body.len() == old(game).player.body().len() + 1
            &&& !old(game).eats() ==> body.len() == old(game).player.body().len()
            &&& !old(game).eats() ==> final(game).food_index == old(game).food_index
            &&& old(game).eats() && free_cells_of(old(game).grid, body).len() > 0 ==> {
                &&& free_cells_of(old(game).grid, body).contains(final(game).food_index.location)
                &&& !body.contains(final(game).food_index.location)
            }
            &&& old(game).eats() && free_cells_of(old(game).grid, body).len() == 0
                ==> final(game).food_index == old(game).food_index
        },
        old(game).state == GameState::Playing && connected(old(game).player.body()) ==> connected(
            final(game).player.body(),
        ),
        old(game).state == GameState::Playing && final(game).state == GameState::Playing
            && old(game).player.body().no_duplicates() ==> final(game).player.body().no_duplicates(),
        old(game).state == GameState::Playing ==> {
            ||| final(game).player.body().len() == old(game).player.body().len()
            ||| final(game).player.body().len() == old(game).player.body().len() + 1
        },
{
    if game.state == GameState::Lost {
        return;
    }
    let next = next_head(&game.player, &game.grid);
    match next {
        None => {
            game.state = GameState::Lost;
        },
        Some(new_head) => {
            let dir = game.player.player_direction;
            if new_head == game.food_index.location {
                game.player.player_position.insert(0, new_head);
                assert(game.player.body() =~= old(game).body_after_move());
                game.generate_food();
            } else {
                player_movement(&mut game.player);
            }
            let ghost body = game.player.body();
            assert(forall|i: int| 0 <= i < body.len() ==> old(game).grid.contains(#[trigger] body[i]))
                by {
                assert forall|i: int| 0 <= i < body.len() implies old(game).grid.contains(
                    #[trigger] body[i],
                ) by {
                    if i > 0 {
                        assert(body[i] == old(game).player.body()[i - 1]);
                    }
                }
            }
            if game.player.check_collision() {
                game.state = GameState::Lost;
            }
            proof {
                lemma_move_keeps_shape(old(game).player.body(), body, new_head);
            }
            game.player.prev_direction = dir;
        },
    }
}

/// Putting a neighbour of the head in front of a prefix of the snake keeps it
/// a path, and keeps it free of repeats when the new head meets no segment.
proof fn lemma_move_keeps_shape(old_body: Seq<Point>, body: Seq<Point>, head: Point)
    requires
        old_body.len() >= 1,
        adjacent(head, old_body[0]),
        body.len() >= 2,
        body[0] == head,
        body.len() - 1 <= old_body.len(),
        forall|i: int| 1 <= i < body.len() ==> #[trigger] body[i] == old_body[i - 1],
    ensures
        connected(old_body) ==> connected(body),
        old_body.no_duplicates() && !bites_itself(body) ==> body.no_duplicates(),
{
    if connected(old_body) {
        assert forall|i: int| 0 <= i < body.len() - 1 implies adjacent(
            #[trigger] body[i],
            body[i + 1],
        ) by {
            if i > 0 {
                assert(old_body[i - 1] == body[i]);
                assert(adjacent(old_body[i - 1], old_body[i]));
            }
        }
    }
    if old_body.no_duplicates() && !bites_itself(body) {
        assert forall|i: int, j: int|
            0 <= i < body.len() && 0 <= j < body.len() && i != j implies body[i] != body[j] by {
            if i == 0 {
                assert(body[j] != body[0]);
            } else if j == 0 {
                assert(body[i] != body[0]);
            } else {
                assert(body[i] == old_body[i - 1]);
                assert(body[j] == old_body[j - 1]);
            }
        }
    }
}

} // verus!
