use vstd::prelude::*;

use rand::Rng;

use crate::draw::{block, block_at, rect, Paint, Sprite};
use crate::food::{paint_of, Food, FoodType};
use crate::snake::{
    cell_of, inner_cell, lemma_head_not_in_tail, lemma_move_keeps_cells_distinct,
    lemma_portal_keeps_cells_distinct, opposite_of, step, Direction, Snake, SnakeView,
};

verus! {

/// Time between two moves of the snake, in microseconds.
pub const MOVING_PERIOD: u64 = 100_000;

/// Time from the end of a game to the next one, in microseconds.
pub const RESTART_TIME: u64 = 1_000_000;

/// Random draws tried before the board is searched cell by cell for food.
const FOOD_TRIES: u32 = 32;

/// A key press as the game sees it.
#[derive(Clone, Copy, Debug, PartialEq, Eq, Structural)]
pub enum Key {
    Up,
    Down,
    Left,
    Right,
    Other,
}

/// The heading that a key asks for; a key that is no arrow keeps `current`.
pub open spec fn key_heading(key: Key, current: Direction) -> Direction {
    match key {
        Key::Up => Direction::Up,
        Key::Down => Direction::Down,
        Key::Left => Direction::Left,
        Key::Right => Direction::Right,
        Key::Other => current,
    }
}

/// A portal end far enough from the limits of `i32` that every cell beside
/// it has neighbours within `i32`.
pub open spec fn portal_cell(p: (int, int)) -> bool {
    i32::MIN + 1 < p.0 < i32::MAX - 1 && i32::MIN + 1 < p.1 < i32::MAX - 1
}

/// The game as mathematics. `waiting` counts microseconds.
pub ghost struct GameView {
    pub snake: SnakeView,
    pub food_exists: bool,
    pub food: Food,
    pub width: int,
    pub height: int,
    pub game_over: bool,
    pub waiting: int,
    pub portal: Food,
    pub portal2: Food,
    pub poison: Food,
}

impl GameView {
    pub open spec fn wf(self) -> bool {
        &&& self.snake.body.len() > 0
        &&& self.snake.body.no_duplicates()
        &&& inner_cell(self.snake.head())
        &&& portal_cell(self.portal.pos())
        &&& portal_cell(self.portal2.pos())
        &&& self.food.food_type == FoodType::NORMAL
        &&& self.portal.food_type == FoodType::PORTAL
        &&& self.portal2.food_type == FoodType::PORTAL
        &&& self.poison.food_type == FoodType::POISON
    }

    /// The cells inside the border ring.
    pub open spec fn interior(self, p: (int, int)) -> bool {
        0 < p.0 < self.width - 1 && 0 < p.1 < self.height - 1
    }

    /// `p` lies on the border ring.
    pub open spec fn on_border(self, p: (int, int)) -> bool {
        p.0 == 0 || p.0 == self.width - 1 || p.1 == 0 || p.1 == self.height - 1
    }

    /// The snake survives a move in `dir`.
    pub open spec fn alive(self, dir: Option<Direction>) -> bool {
        let n = self.snake.next_head(dir);
        &&& !self.snake.overlaps_tail(n)
        &&& n != self.poison.pos()
        &&& self.interior(n)
    }

    /// A cell where food may appear.
    pub open spec fn free_cell(self, p: (int, int)) -> bool {
        self.interior(p) && !self.snake.overlaps_tail(p)
    }

    /// `spot` is a possible outcome of placing food: a free cell, or none
    /// when no cell is free.
    pub open spec fn spot_ok(self, spot: Option<(int, int)>) -> bool {
        match spot {
            Some(p) => self.free_cell(p),
            None => forall|p: (int, int)| !#[trigger] self.free_cell(p),
        }
    }

    pub open spec fn spawned(self, spot: Option<(int, int)>) -> GameView {
        match spot {
            Some(p) => GameView {
                food_exists: true,
                food: Food { x: p.0 as i32, y: p.1 as i32, food_type: self.food.food_type },
                ..self
            },
            None => self,
        }
    }

    /// The other end of the portal that `h` stands on, if any.
    pub open spec fn portal_target(self, h: (int, int)) -> Option<Food> {
        if h == self.portal.pos() {
            Some(self.portal2)
        } else if h == self.portal2.pos() {
            Some(self.portal)
        } else {
            None
        }
    }

    pub open spec fn eaten(self) -> GameView {
        if self.food_exists && self.snake.head() == self.food.pos() {
            GameView { food_exists: false, snake: self.snake.restored(), ..self }
        } else {
            self
        }
    }

    /// A survived move in `dir`, with the food eaten if the head lands on
    /// it; the portal pass comes after this.
    pub open spec fn after_move(self, dir: Option<Direction>) -> GameView {
        GameView { snake: self.snake.moved(dir), ..self }.eaten()
    }

    pub open spec fn through_portal(self) -> GameView {
        match self.portal_target(self.snake.head()) {
            Some(t) => if self.snake.can_teleport(t.pos()) {
                GameView { snake: self.snake.teleported(t.pos()), ..self }
            } else {
                self
            },
            None => self,
        }
    }

    /// One step of the snake in `dir` (or its heading): move and eat, or
    /// die; then pass through a portal that the head stands on. The portal
    /// is looked up after the move, so the step that enters a portal also
    /// leaves by its other end; a dead snake whose head rests on a portal
    /// passes through it too.
    pub open spec fn stepped(self, dir: Option<Direction>) -> GameView {
        let g = if self.alive(dir) {
            self.after_move(dir)
        } else {
            GameView { game_over: true, ..self }
        };
        GameView { waiting: 0, ..g.through_portal() }
    }

    /// What a frame shows, in drawing order: the snake from head to tail,
    /// the portals, the poison, the food if any, the four border strips,
    /// and a shade over the board once the game has ended.
    pub open spec fn scene(self) -> Seq<Sprite> {
        self.snake.body.map_values(|p: (int, int)| block(Paint::Snake, p)) + seq![
            block(paint_of(self.portal.food_type), self.portal.pos()),
            block(paint_of(self.portal2.food_type), self.portal2.pos()),
            block(paint_of(self.poison.food_type), self.poison.pos()),
        ] + (if self.food_exists {
            seq![block(paint_of(self.food.food_type), self.food.pos())]
        } else {
            Seq::empty()
        }) + seq![
            rect(Paint::Border, 0, 0, self.width, 1),
            rect(Paint::Border, 0, self.height - 1, self.width, 1),
            rect(Paint::Border, 0, 0, 1, self.height),
            rect(Paint::Border, self.width - 1, 0, 1, self.height),
        ] + (if self.game_over {
            seq![rect(Paint::GameOver, 0, 0, self.width, self.height)]
        } else {
            Seq::empty()
        })
    }

    pub open spec fn after_key(self, key: Key) -> GameView {
        let d = key_heading(key, self.snake.dir);
        if self.game_over || d == opposite_of(self.snake.dir) {
            self
        } else {
            self.stepped(Some(d))
        }
    }

    pub open spec fn restarted(self) -> GameView {
        GameView {
            snake: SnakeView { body: seq![(2, 2)], dir: Direction::Right, saved: None },
            food_exists: false,
            food: Food { x: 6, y: 4, food_type: FoodType::NORMAL },
            game_over: false,
            waiting: 0,
            ..self
        }
    }

    pub open spec fn waited(self, delta: u64) -> GameView {
        let w = self.waiting + delta;
        GameView { waiting: if w > u64::MAX { u64::MAX as int } else { w }, ..self }
    }

    /// The state after `delta` microseconds, where `spot` is where food was
    /// placed if the game needed some.
    pub open spec fn ticked(self, delta: u64, spot: Option<(int, int)>) -> GameView {
        let g = self.waited(delta);
        if g.game_over {
            if g.waiting > RESTART_TIME {
                g.restarted()
            } else {
                g
            }
        } else {
            let g2 = if g.food_exists {
                g
            } else {
                g.spawned(spot)
            };
            if g2.waiting > MOVING_PERIOD {
                g2.stepped(None)
            } else {
                g2
            }
        }
    }
}

/// A key that asks for the reverse of the current heading changes nothing.
pub proof fn lemma_reverse_key_ignored(g: GameView, key: Key)
    requires
        key_heading(key, g.snake.dir) == opposite_of(g.snake.dir),
    ensures
        g.after_key(key) == g,
        g.after_key(key).snake.dir == g.snake.dir,
{
}

/// In every state of the game the head is not counted as part of the tail.
pub proof fn lemma_head_never_in_tail(g: GameView)
    requires
        g.wf(),
    ensures
        !g.snake.overlaps_tail(g.snake.head()),
{
    lemma_head_not_in_tail(g.snake);
}

/// After a key press the snake never faces the reverse of its former
/// heading.
pub proof fn lemma_key_never_reverses(g: GameView, key: Key)
    ensures
        g.after_key(key).snake.dir != opposite_of(g.snake.dir),
{
}

/// A survived step onto the food clears it and grows the snake by exactly
/// one cell, also when a portal pass follows.
pub proof fn lemma_eating_grows(g: GameView, dir: Option<Direction>)
    requires
        g.wf(),
        g.alive(dir),
        g.food_exists,
        g.snake.next_head(dir) == g.food.pos(),
    ensures
        !g.stepped(dir).food_exists,
        g.stepped(dir).snake.body.len() == g.snake.body.len() + 1,
{
}

/// A step that eats nothing keeps the length of the snake and the food,
/// whether it is survived or not and whether a portal pass follows.
pub proof fn lemma_step_without_food_keeps_length(g: GameView, dir: Option<Direction>)
    requires
        g.wf(),
        !(g.alive(dir) && g.food_exists && g.snake.next_head(dir) == g.food.pos()),
    ensures
        g.stepped(dir).snake.body.len() == g.snake.body.len(),
        g.stepped(dir).food_exists == g.food_exists,
        g.stepped(dir).food == g.food,
{
}

/// A survived step onto a portal end keeps the heading that the step asked
/// for, and drops the head on the cell beyond the other end in that
/// heading, wherever the moved body still fits in `i32`.
pub proof fn lemma_portal_step(g: GameView, dir: Option<Direction>)
    requires
        g.wf(),
        g.alive(dir),
        g.snake.next_head(dir) == g.portal.pos() || g.snake.next_head(dir) == g.portal2.pos(),
    ensures
        g.stepped(dir).snake.dir == g.snake.heading(dir),
        g.snake.next_head(dir) == g.portal.pos() && g.after_move(dir).snake.can_teleport(
            g.portal2.pos(),
        ) ==> g.stepped(dir).snake.head() == step(g.portal2.pos(), g.snake.heading(dir)),
        g.snake.next_head(dir) == g.portal2.pos() && g.portal.pos() != g.portal2.pos()
            && g.after_move(dir).snake.can_teleport(g.portal.pos()) ==> g.stepped(
            dir,
        ).snake.head() == step(g.portal.pos(), g.snake.heading(dir)),
{
}

/// A move onto the border ring, or onto the poison, is never survived.
pub proof fn lemma_border_and_poison_kill(g: GameView, dir: Option<Direction>)
    ensures
        g.on_border(g.snake.next_head(dir)) ==> !g.alive(dir),
        g.snake.next_head(dir) == g.poison.pos() ==> !g.alive(dir),
        !g.alive(dir) ==> g.stepped(dir).game_over,
{
}

/// Some placement of food is always possible.
proof fn lemma_spot_exists(g: GameView)
    ensures
        exists|spot: Option<(int, int)>| g.spot_ok(spot),
{
    if exists|p: (int, int)| g.free_cell(p) {
        let p = choose|p: (int, int)| g.free_cell(p);
        assert(g.spot_ok(Some(p)));
    } else {
        assert(g.spot_ok(None));
    }
}

/// Relies on rand::thread_rng and Rng::gen_range: a value drawn from the
/// half-open range `lo..hi`, which must not be empty.
#[verifier::external_body]
fn random_in(lo: i32, hi: i32) -> (r: i32)
    requires
        lo < hi,
    ensures
        lo <= r < hi,
{
    rand::thread_rng().gen_range(lo..hi)
}

pub struct Game {
    snake: Snake,
    food_exists: bool,
    food: Food,
    width: i32,
    height: i32,
    game_over: bool,
    waiting_time: u64,
    portal: Food,
    portal2: Food,
    poison: Food,
}

impl View for Game {
    type V = GameView;

    closed spec fn view(&self) -> GameView {
        GameView {
            snake: self.snake@,
            food_exists: self.food_exists,
            food: self.food,
            width: self.width as int,
            height: self.height as int,
            game_over: self.game_over,
            waiting: self.waiting_time as int,
            portal: self.portal,
            portal2: self.portal2,
            poison: self.poison,
        }
    }
}

impl Game {
    pub open spec fn wf(&self) -> bool {
        self@.wf()
    }

    /// A board of `width` by `height` cells with the usual portals and
    /// poison.
    pub fn new(width: i32, height: i32) -> (r: Game)
        ensures
            r.wf(),
            r@ == (GameView {
                snake: SnakeView { body: seq![(2, 2)], dir: Direction::Right, saved: None },
                food_exists: false,
                food: Food { x: 6, y: 4, food_type: FoodType::NORMAL },
                width: width as int,
                height: height as int,
                game_over: false,
                waiting: 0,
                portal: Food { x: 4, y: 4, food_type: FoodType::PORTAL },
                portal2: Food { x: 40, y: 10, food_type: FoodType::PORTAL },
                poison: Food { x: 28, y: 6, food_type: FoodType::POISON },
            }),
    {
        Game::with_markers(width, height, (4, 4), (40, 10), (28, 6))
    }

    /// A board of `width` by `height` cells with the given portal ends and
    /// poison.
    pub fn with_markers(
        width: i32,
        height: i32,
        portal: (i32, i32),
        portal2: (i32, i32),
        poison: (i32, i32),
    ) -> (r: Game)
        requires
            portal_cell(cell_of(portal)),
            portal_cell(cell_of(portal2)),
        ensures
            r.wf(),
            r@ == (GameView {
                snake: SnakeView { body: seq![(2, 2)], dir: Direction::Right, saved: None },
                food_exists: false,
                food: Food { x: 6, y: 4, food_type: FoodType::NORMAL },
                width: width as int,
                height: height as int,
                game_over: false,
                waiting: 0,
                portal: Food { x: portal.0, y: portal.1, food_type: FoodType::PORTAL },
                portal2: Food { x: portal2.0, y: portal2.1, food_type: FoodType::PORTAL },
                poison: Food { x: poison.0, y: poison.1, food_type: FoodType::POISON },
            }),
    {
        Game {
            snake: Snake::new(2, 2),
            food_exists: false,
            food: Food::new(6, 4, FoodType::NORMAL),
            width,
            height,
            game_over: false,
            waiting_time: 0,
            portal: Food::new(portal.0, portal.1, FoodType::PORTAL),
            portal2: Food::new(portal2.0, portal2.1, FoodType::PORTAL),
            poison: Food::new(poison.0, poison.1, FoodType::POISON),
        }
    }

    /// Whether the snake survives a move in `dir` (or its heading).
    pub fn check_if_snake_alive(&self, dir: Option<Direction>) -> (r: bool)
        requires
            self.wf(),
        ensures
            r == self@.alive(dir),
            self@.on_border(self@.snake.next_head(dir)) ==> !r,
            self@.snake.next_head(dir) == self@.poison.pos() ==> !r,
    {
        let (nx, ny) = self.snake.next_head(dir);
        if self.snake.overlap_tail(nx, ny) || (nx == self.poison.x && ny == self.poison.y) {
            return false;
        }
        nx > 0 && (nx as i64) < self.width as i64 - 1 && ny > 0 && (ny as i64) < self.height as i64
            - 1
    }

    fn check_eating(&mut self)
        requires
            old(self).wf(),
        ensures
            final(self)@ == old(self)@.eaten(),
    {
        let (head_x, head_y) = self.snake.head_position();
        if self.food_exists && self.food.x == head_x && self.food.y == head_y {
            self.food_exists = false;
            self.snake.restore_tail();
        }
    }

    fn check_if_portal_enabled(&self) -> (r: Option<Food>)
        requires
            self.wf(),
        ensures
            r == self@.portal_target(self@.snake.head()),
    {
        let (head_x, head_y) = self.snake.head_position();
        if head_x == self.portal.x && head_y == self.portal.y {
            return Some(self.portal2);
        }
        if head_x == self.portal2.x && head_y == self.portal2.y {
            return Some(self.portal);
        }
        None
    }

    /// The first free cell in column-major order, if any.
    fn free_cell(&self) -> (r: Option<(i32, i32)>)
        ensures
            match r {
                Some(p) => self@.free_cell(cell_of(p)),
                None => forall|p: (int, int)| !#[trigger] self@.free_cell(p),
            },
    {
        let mut x: i32 = 1;
        while (x as i64) < self.width as i64 - 1
            invariant
                1 <= x,
                forall|p: (int, int)| p.0 < x ==> !#[trigger] self@.free_cell(p),
            decreases self.width - x,
        {
            let mut y: i32 = 1;
            while (y as i64) < self.height as i64 - 1
                invariant
                    1 <= x < self.width - 1,
                    1 <= y,
                    forall|p: (int, int)|
                        p.0 < x || (p.0 == x && p.1 < y) ==> !#[trigger] self@.free_cell(p),
                decreases self.height - y,
            {
                if !self.snake.overlap_tail(x, y) {
                    return Some((x, y));
                }
                y += 1;
            }
            x += 1;
        }
        None
    }

    /// Puts the food at `(x, y)` if that cell is free; tells whether it did.
    pub fn place_food(&mut self, x: i32, y: i32) -> (r: bool)
        requires
            old(self).wf(),
        ensures
            final(self).wf(),
            r == old(self)@.free_cell((x as int, y as int)),
            r ==> final(self)@ == old(self)@.spawned(Some((x as int, y as int))),
            !r ==> final(self)@ == old(self)@,
    {
        if (x as i64) < 1 || (x as i64) >= self.width as i64 - 1 || (y as i64) < 1 || (y as i64)
            >= self.height as i64 - 1 || self.snake.overlap_tail(x, y) {
            return false;
        }
        self.food.x = x;
        self.food.y = y;
        self.food_exists = true;
        true
    }

    /// Places food on a free cell: a random one where a few draws find one,
    /// else the first free cell; leaves the board without food when no cell
    /// is free.
    fn add_food(&mut self)
        requires
            old(self).wf(),
        ensures
            final(self).wf(),
            exists|spot: Option<(int, int)>|
                old(self)@.spot_ok(spot) && final(self)@ == old(self)@.spawned(spot),
    {
        let ghost g0 = self@;
        if self.width > 2 && self.height > 2 {
            let mut tries: u32 = 0;
            while tries < FOOD_TRIES
                invariant
                    self@ == g0,
                    g0 == old(self)@,
                    g0.wf(),
                    self.width > 2,
                    self.height > 2,
                decreases FOOD_TRIES - tries,
            {
                let x = random_in(1, self.width - 1);
                let y = random_in(1, self.height - 1);
                if self.place_food(x, y) {
                    assert(g0.spot_ok(Some(cell_of((x, y)))));
                    return;
                }
                tries += 1;
            }
        }
        match self.free_cell() {
            Some((x, y)) => {
                let placed = self.place_food(x, y);
                assert(placed);
                assert(g0.spot_ok(Some(cell_of((x, y)))));
            },
            None => {
                assert(g0.spot_ok(None));
                assert(self@ == g0.spawned(None));
            },
        }
    }

    fn update_snake(&mut self, dir: Option<Direction>)
        requires
            old(self).wf(),
        ensures
            final(self).wf(),
            final(self)@ == old(self)@.stepped(dir),
    {
        if self.check_if_snake_alive(dir) {
            proof {
                lemma_move_keeps_cells_distinct(self@.snake, dir);
            }
            self.snake.move_forward(dir);
            self.check_eating();
        } else {
            self.game_over = true;
        }
        if let Some(target) = self.check_if_portal_enabled() {
            if self.snake.can_pass_portal(&target) {
                proof {
                    lemma_portal_keeps_cells_distinct(self@.snake, target.pos());
                }
                self.snake.move_through_portal(&target);
            }
        }
        self.waiting_time = 0;
    }

    fn restart(&mut self)
        requires
            old(self).wf(),
        ensures
            final(self).wf(),
            final(self)@ == old(self)@.restarted(),
    {
        self.snake = Snake::new(2, 2);
        self.food_exists = false;
        self.game_over = false;
        self.waiting_time = 0;
        self.food = Food::new(6, 4, FoodType::NORMAL);
    }

    /// The blocks and strips to draw for the current frame.
    pub fn draw(&self) -> (r: Vec<Sprite>)
        ensures
            r@ == self@.scene(),
    {
        let cells = self.snake.segments();
        let mut r: Vec<Sprite> = Vec::new();
        let mut i: usize = 0;
        while i < cells.len()
            invariant
                i <= cells.len(),
                cells@.map_values(|p: (i32, i32)| cell_of(p)) == self@.snake.body,
                r@ == self@.snake.body.subrange(0, i as int).map_values(
                    |p: (int, int)| block(Paint::Snake, p),
                ),
            decreases cells.len() - i,
        {
            let (x, y) = cells[i];
            r.push(block_at(Paint::Snake, x, y));
            assert(self@.snake.body[i as int] == cell_of(cells@[i as int]));
            i += 1;
            assert(r@ =~= self@.snake.body.subrange(0, i as int).map_values(
                |p: (int, int)| block(Paint::Snake, p),
            ));
        }
        assert(self@.snake.body.subrange(0, i as int) =~= self@.snake.body);
        r.push(self.portal.draw());
        r.push(self.portal2.draw());
        r.push(self.poison.draw());
        if self.food_exists {
            r.push(self.food.draw());
        }
        let w = self.width as i64;
        let h = self.height as i64;
        r.push(Sprite { paint: Paint::Border, x: 0, y: 0, width: w, height: 1 });
        r.push(Sprite { paint: Paint::Border, x: 0, y: h - 1, width: w, height: 1 });
        r.push(Sprite { paint: Paint::Border, x: 0, y: 0, width: 1, height: h });
        r.push(Sprite { paint: Paint::Border, x: w - 1, y: 0, width: 1, height: h });
        if self.game_over {
            r.push(Sprite { paint: Paint::GameOver, x: 0, y: 0, width: w, height: h });
        }
        assert(r@ =~= self@.scene());
        r
    }

    pub fn snake(&self) -> (r: &Snake)
        ensures
            r@ == self@.snake,
    {
        &self.snake
    }

    pub fn food_exists(&self) -> (r: bool)
        ensures
            r == self@.food_exists,
    {
        self.food_exists
    }

    /// The food marker; it is on the board only while `food_exists`.
    pub fn food(&self) -> (r: Food)
        ensures
            r == self@.food,
    {
        self.food
    }

    pub fn is_game_over(&self) -> (r: bool)
        ensures
            r == self@.game_over,
    {
        self.game_over
    }

    /// Microseconds since the last move, or since the game ended.
    pub fn waiting_time(&self) -> (r: u64)
        ensures
            r == self@.waiting,
    {
        self.waiting_time
    }

    /// Turns the snake by a key press and moves it at once. Ignored after
    /// the game has ended, and when the key asks for the reverse heading.
    pub fn key_pressed(&mut self, key: Key)
        requires
            old(self).wf(),
        ensures
            final(self).wf(),
            final(self)@ == old(self)@.after_key(key),
            key_heading(key, old(self)@.snake.dir) == opposite_of(old(self)@.snake.dir)
                ==> final(self)@.snake.dir == old(self)@.snake.dir,
    {
        if self.game_over {
            return;
        }
        let current = self.snake.head_direction();
        let dir = match key {
            Key::Up => Direction::Up,
            Key::Down => Direction::Down,
            Key::Left => Direction::Left,
            Key::Right => Direction::Right,
            Key::Other => current,
        };
        if dir == current.opposite() {
            return;
        }
        self.update_snake(Some(dir));
    }

    /// Lets `delta_time` microseconds pass: restarts an ended game once the
    /// restart time is over; else places food where none is and moves the
    /// snake once the moving period is over.
    pub fn update(&mut self, delta_time: u64)
        requires
            old(self).wf(),
        ensures
            final(self).wf(),
            exists|spot: Option<(int, int)>|
                old(self)@.spot_ok(spot) && final(self)@ == old(self)@.ticked(delta_time, spot),
    {
        let ghost g0 = self@;
        if delta_time > u64::MAX - self.waiting_time {
            self.waiting_time = u64::MAX;
        } else {
            self.waiting_time = self.waiting_time + delta_time;
        }
        assert(self@ == g0.waited(delta_time));
        if self.game_over {
            if self.waiting_time > RESTART_TIME {
                self.restart();
            }
            proof {
                lemma_spot_exists(g0);
                let spot = choose|spot: Option<(int, int)>| g0.spot_ok(spot);
                assert(self@ == g0.ticked(delta_time, spot));
            }
            return;
        }
        let ghost g1 = self@;
        let ghost mut spot: Option<(int, int)> = None;
        if !self.food_exists {
            self.add_food();
            proof {
                spot = choose|s: Option<(int, int)>| g1.spot_ok(s) && self@ == g1.spawned(s);
            }
        } else {
            proof {
                lemma_spot_exists(g0);
                spot = choose|s: Option<(int, int)>| g0.spot_ok(s);
            }
        }
        assert(g0.spot_ok(spot)) by {
            assert(forall|p: (int, int)| g1.free_cell(p) == #[trigger] g0.free_cell(p));
        }
        if self.waiting_time > MOVING_PERIOD {
            self.update_snake(None);
        }
        assert(self@ == g0.ticked(delta_time, spot));
    }
}

} // verus!
