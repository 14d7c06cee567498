use vstd::prelude::*;
use crate::random::gen_range;

verus! {

/// Side length of the square playing field, in cells.
pub const GRID: i16 = 18;

/// Points awarded for each fruit eaten.
pub const SCORE_STEP: u128 = 100;

/// A grid cell as (column, row).
pub type Point = (i16, i16);

#[derive(Clone, Copy, Debug, PartialEq, Eq, Structural)]
pub enum Direction {
    Up,
    Down,
    Left,
    Right,
}

pub open spec fn dx(d: Direction) -> int {
    match d {
        Direction::Left => -1,
        Direction::Right => 1,
        _ => 0,
    }
}

pub open spec fn dy(d: Direction) -> int {
    match d {
        Direction::Up => -1,
        Direction::Down => 1,
        _ => 0,
    }
}

pub open spec fn opposite_of(d: Direction) -> Direction {
    match d {
        Direction::Up => Direction::Down,
        Direction::Down => Direction::Up,
        Direction::Left => Direction::Right,
        Direction::Right => Direction::Left,
    }
}

pub open spec fn in_grid(p: Point) -> bool {
    0 <= p.0 < GRID && 0 <= p.1 < GRID
}

/// The cell one step from `p` in direction `d`.
pub open spec fn moved(p: Point, d: Direction) -> Point {
    ((p.0 + dx(d)) as i16, (p.1 + dy(d)) as i16)
}

impl Direction {
    pub fn opposite(&self) -> (r: Direction)
        ensures
            r == opposite_of(*self),
    {
        match self {
            Direction::Up => Direction::Down,
            Direction::Down => Direction::Up,
            Direction::Left => Direction::Right,
            Direction::Right => Direction::Left,
        }
    }
}

/// A coordinate drawn uniformly from `0..GRID`.
fn random_coordinate() -> (r: i16)
    ensures
        0 <= r < GRID,
{
    gen_range(0, GRID as i32) as i16
}

/// A uniformly drawn cell of the grid. The draw does not avoid the snake:
/// a fruit may appear under its body, as in the classic game.
pub fn random_cell() -> (p: Point)
    ensures
        in_grid(p),
{
    let x = random_coordinate();
    let y = random_coordinate();
    (x, y)
}

/// The whole state of one snake game.
///
/// `body` holds the segments behind the head, the most recent first.
pub struct SnakeGame {
    pub head: Point,
    pub body: Vec<Point>,
    pub dir: Direction,
    pub fruit: Point,
    pub score: u128,
    pub game_over: bool,
    /// Set once a direction change has been accepted since the last tick.
    pub navigation_lock: bool,
}

/// The state that `set_direction(req)` leaves behind.
pub open spec fn after_request(s: SnakeGame, req: Direction) -> SnakeGame {
    if !s.game_over && !s.navigation_lock && req != opposite_of(s.dir) {
        SnakeGame { dir: req, navigation_lock: true, ..s }
    } else {
        s
    }
}

/// The state after each request of `reqs` in turn, within one tick.
pub open spec fn after_requests(s: SnakeGame, reqs: Seq<Direction>) -> SnakeGame
    decreases reqs.len(),
{
    if reqs.len() == 0 {
        s
    } else {
        after_request(after_requests(s, reqs.drop_last()), reqs.last())
    }
}

/// How one tick turns `s` into `t`; `ate` says whether the fruit was eaten,
/// and `fresh` is the cell where a new fruit appears if it was.
pub open spec fn ticked(s: SnakeGame, t: SnakeGame, fresh: Point, ate: bool) -> bool {
    let nh = moved(s.head, s.dir);
    let pushed = seq![s.head] + s.body@;
    &&& t.head == nh
    &&& t.dir == s.dir
    &&& ate == (nh == s.fruit)
    &&& t.body@ == if ate { pushed } else { pushed.drop_last() }
    &&& t.fruit == if ate { fresh } else { s.fruit }
    &&& t.score == if ate { (s.score + SCORE_STEP) as u128 } else { s.score }
    &&& t.game_over == (!in_grid(nh) || t.body@.contains(nh))
    &&& !t.navigation_lock
}

impl SnakeGame {
    /// The fruit always lies on the grid; while the game runs, so does the
    /// head. Each fruit eaten added one segment and `SCORE_STEP` points.
    pub open spec fn wf(&self) -> bool {
        &&& in_grid(self.fruit)
        &&& self.score == SCORE_STEP * self.body@.len()
        &&& !self.game_over ==> in_grid(self.head)
    }

    /// A fresh game: a one-cell snake at the origin heading right, no score,
    /// and the fruit at `fruit`.
    pub fn with_fruit(fruit: Point) -> (g: SnakeGame)
        requires
            in_grid(fruit),
        ensures
            g.wf(),
            g.head == (0i16, 0i16),
            g.body@ == Seq::<Point>::empty(),
            g.dir == Direction::Right,
            g.fruit == fruit,
            g.score == 0,
            !g.game_over,
            !g.navigation_lock,
    {
        SnakeGame {
            head: (0, 0),
            body: Vec::new(),
            dir: Direction::Right,
            fruit,
            score: 0,
            game_over: false,
            navigation_lock: false,
        }
    }

    /// A fresh game with the fruit on a random cell.
    pub fn new() -> (g: SnakeGame)
        ensures
            g.wf(),
            g.head == (0i16, 0i16),
            g.body@ == Seq::<Point>::empty(),
            g.dir == Direction::Right,
            g.score == 0,
            !g.game_over,
            !g.navigation_lock,
    {
        SnakeGame::with_fruit(random_cell())
    }

    /// Starts over, as `new` does.
    pub fn reset(&mut self)
        ensures
            final(self).wf(),
            final(self).head == (0i16, 0i16),
            final(self).body@ == Seq::<Point>::empty(),
            final(self).dir == Direction::Right,
            final(self).score == 0,
            !final(self).game_over,
            !final(self).navigation_lock,
    {
        *self = SnakeGame::new();
    }

    /// Asks to turn towards `req`. Accepted only while the game runs, when no
    /// change was accepted yet in this tick, and when `req` is not the reverse
    /// of the current direction; otherwise nothing changes.
    pub fn set_direction(&mut self, req: Direction) -> (accepted: bool)
        ensures
            *final(self) == after_request(*old(self), req),
            accepted == (!old(self).game_over && !old(self).navigation_lock
                && req != opposite_of(old(self).dir)),
    {
        if !self.game_over && !self.navigation_lock && req != self.dir.opposite() {
            self.dir = req;
            self.navigation_lock = true;
            true
        } else {
            false
        }
    }

    /// The cell the head moves to on the next tick.
    pub fn next_head(&self) -> (p: Point)
        requires
            in_grid(self.head),
        ensures
            p == moved(self.head, self.dir),
            p.0 == self.head.0 + dx(self.dir),
            p.1 == self.head.1 + dy(self.dir),
    {
        match self.dir {
            Direction::Up => (self.head.0, self.head.1 - 1),
            Direction::Down => (self.head.0, self.head.1 + 1),
            Direction::Left => (self.head.0 - 1, self.head.1),
            Direction::Right => (self.head.0 + 1, self.head.1),
        }
    }

    /// One movement step of a running game, with `fresh` as the cell where
    /// the next fruit appears should this step eat the current one.
    pub fn advance(&mut self, fresh: Point) -> (ate: bool)
        requires
            old(self).wf(),
            !old(self).game_over,
            in_grid(fresh),
        ensures
            final(self).wf(),
            ticked(*old(self), *final(self), fresh, ate),
            final(self).body@.len() == if ate {
                old(self).body@.len() + 1
            } else {
                old(self).body@.len() + 0
            },
    {
        let nh = self.next_head();
        let old_head = self.head;
        self.body.insert(0, old_head);
        assert(self.body@ =~= seq![old_head] + old(self).body@);
        self.head = nh;
        let ate = same_cell(nh, self.fruit);
        if ate {
            let len = self.body.len();
            assert(self.score + SCORE_STEP == SCORE_STEP * len) by (nonlinear_arith)
                requires
                    self.score == SCORE_STEP * (len - 1),
            ;
            assert(SCORE_STEP * len <= SCORE_STEP * usize::MAX) by (nonlinear_arith)
                requires
                    len <= usize::MAX,
            ;
            self.fruit = fresh;
            self.score = self.score + SCORE_STEP;
        } else {
            let ghost pushed = self.body@;
            self.body.pop();
            assert(self.body@ =~= pushed.drop_last());
        }
        let outside = nh.0 < 0 || nh.1 < 0 || nh.0 >= GRID || nh.1 >= GRID;
        let hit = body_contains(&self.body, nh);
        self.game_over = outside || hit;
        self.navigation_lock = false;
        ate
    }

    /// One movement step, drawing the next fruit at random when the current
    /// one is eaten; the new fruit may land anywhere on the grid, the snake's
    /// own cells included. A finished game stays as it is.
    pub fn tick(&mut self) -> (ate: bool)
        requires
            old(self).wf(),
        ensures
            final(self).wf(),
            old(self).game_over ==> *final(self) == *old(self) && !ate,
            !old(self).game_over ==> ticked(*old(self), *final(self), final(self).fruit, ate),
    {
        if self.game_over {
            return false;
        }
        let fresh = if same_cell(self.next_head(), self.fruit) {
            random_cell()
        } else {
            self.fruit
        };
        self.advance(fresh)
    }
}

/// After any run of requests within a tick, the snake either still heads
/// where it did, or has turned once and ignores further requests.
proof fn lemma_requests_turn_at_most_once(s: SnakeGame, reqs: Seq<Direction>)
    ensures
        after_requests(s, reqs).game_over == s.game_over,
        after_requests(s, reqs).dir == s.dir && after_requests(s, reqs).navigation_lock
            == s.navigation_lock || after_requests(s, reqs).navigation_lock
            && after_requests(s, reqs).dir != opposite_of(s.dir),
    decreases reqs.len(),
{
    if reqs.len() > 0 {
        lemma_requests_turn_at_most_once(s, reqs.drop_last());
    }
}

/// Whatever turns are requested between two ticks, and in whatever order,
/// the snake never ends up heading opposite to where it headed before them.
pub proof fn lemma_no_reversal_within_tick(s: SnakeGame, reqs: Seq<Direction>)
    ensures
        after_requests(s, reqs).dir != opposite_of(s.dir),
{
    lemma_requests_turn_at_most_once(s, reqs);
}

/// Once a turn towards `d` has been accepted, a request for the reverse turn
/// before the next tick is rejected and changes nothing.
pub proof fn lemma_reverse_request_rejected(s: SnakeGame, d: Direction)
    requires
        !s.game_over,
        !s.navigation_lock,
        d != opposite_of(s.dir),
    ensures
        after_request(s, d).dir == d,
        after_request(after_request(s, d), opposite_of(d)) == after_request(s, d),
{
}

/// Whether `a` and `b` are the same cell.
pub fn same_cell(a: Point, b: Point) -> (r: bool)
    ensures
        r == (a == b),
{
    a.0 == b.0 && a.1 == b.1
}

/// Whether any segment of `body` is the cell `p`.
pub fn body_contains(body: &Vec<Point>, p: Point) -> (r: bool)
    ensures
        r == body@.contains(p),
{
    let mut i: usize = 0;
    while i < body.len()
        invariant
            i <= body@.len(),
            forall|j: int| 0 <= j < i ==> body@[j] != p,
        decreases body@.len() - i,
    {
        if same_cell(body[i], p) {
            assert(body@[i as int] == p);
            return true;
        }
        i = i + 1;
    }
    false
}

} // verus!
