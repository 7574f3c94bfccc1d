//! The Snake game: a body of segments in a fixed-capacity ring, an egg, and
//! the tick update that moves, grows or ends the round.
use vstd::prelude::*;
use arraydeque::{ArrayDeque, Wrapping};
use crate::common::Direction;
use crate::dot::Dot;
use crate::dot_screen::{DotScreen, lemma_all_from, lemma_raster, lemma_traversals, raster_index};
use crate::joystick::InputSignal;

verus! {

/// Column of the egg at the start of a round.
const EGG_START_X: usize = 1;
/// Row of the egg at the start of a round.
const EGG_START_Y: usize = 6;
/// The row along which the snake starts.
const SNAKE_START_Y: usize = 4;
/// The length of the snake at the start of a round.
pub const START_LENGTH: usize = 3;
/// The time between ticks at the start of a round, in milliseconds.
pub const INITIAL_POLL_INTERVAL: usize = 500;
/// The score at which the snake fills the grid and the player wins.
pub const VICTORY: usize = 61;
/// How many segments the tail can hold: one for each dot.
pub const TAIL_CAPACITY: usize = 64;

/// One unit of the snake: where it is, and where it moves next tick.
#[derive(Clone, Copy, Debug, PartialEq, Eq, Structural)]
pub struct Segment {
    pub direction: Direction,
    pub position: Dot,
}

impl Segment {
    /// The segment one tick later: one step in its direction, stopped by
    /// the walls; the direction stays.
    pub open spec fn spec_next(self) -> Segment {
        Segment {
            direction: self.direction,
            position: match self.direction {
                Direction::Left => self.position.spec_left(),
                Direction::Right => self.position.spec_right(),
                Direction::Up => self.position.spec_up(),
                Direction::Down => self.position.spec_down(),
            },
        }
    }

    fn new(x: usize, y: usize, direction: Direction) -> (r: Self)
        ensures
            r == (Segment { direction, position: Dot { x, y } }),
    {
        Segment { direction, position: Dot { x, y } }
    }

    /// Where this segment will be at the next tick.
    fn next(&self) -> (r: Self)
        ensures
            r == self.spec_next(),
    {
        let position = match self.direction {
            Direction::Left => self.position.left(),
            Direction::Right => self.position.right(),
            Direction::Up => self.position.up(),
            Direction::Down => self.position.down(),
        };
        Segment { direction: self.direction, position }
    }
}

/// The tail of the snake, front (next to the head) first: a ring of
/// `TAIL_CAPACITY` segments that drops its back segment when full.
#[verifier::external_body]
pub struct Tail {
    deque: ArrayDeque<Segment, TAIL_CAPACITY, Wrapping>,
}

/// The segments that a tail holds, front first.
pub uninterp spec fn tail_segments(t: Tail) -> Seq<Segment>;

impl View for Tail {
    type V = Seq<Segment>;

    open spec fn view(&self) -> Seq<Segment> {
        tail_segments(*self)
    }
}

/// Relies on `ArrayDeque::new`: a new deque is empty.
#[verifier::external_body]
fn tail_new() -> (r: Tail)
    ensures
        tail_segments(r).len() == 0,
{
    Tail { deque: ArrayDeque::new() }
}

/// Relies on `ArrayDeque::clear`: every element is removed.
#[verifier::external_body]
fn tail_clear(t: &mut Tail)
    ensures
        tail_segments(*final(t)).len() == 0,
{
    t.deque.clear()
}

/// Relies on `ArrayDeque::push_back` of a `Wrapping` deque: the element goes
/// to the back; on a full deque the front element is taken out first and
/// returned.
#[verifier::external_body]
fn tail_push_back(t: &mut Tail, s: Segment) -> (r: Option<Segment>)
    ensures
        tail_segments(*old(t)).len() < TAIL_CAPACITY ==> r is None && tail_segments(*final(t))
            == tail_segments(*old(t)).push(s),
        tail_segments(*old(t)).len() >= TAIL_CAPACITY ==> r == Some(tail_segments(*old(t))[0])
            && tail_segments(*final(t)) == tail_segments(*old(t)).drop_first().push(s),
{
    t.deque.push_back(s)
}

/// Relies on `ArrayDeque::push_front` of a `Wrapping` deque: the element goes
/// to the front; on a full deque the back element is taken out first and
/// returned.
#[verifier::external_body]
fn tail_push_front(t: &mut Tail, s: Segment) -> (r: Option<Segment>)
    ensures
        tail_segments(*old(t)).len() < TAIL_CAPACITY ==> r is None && tail_segments(*final(t))
            == seq![s] + tail_segments(*old(t)),
        tail_segments(*old(t)).len() >= TAIL_CAPACITY ==> r == Some(tail_segments(*old(t)).last())
            && tail_segments(*final(t)) == seq![s] + tail_segments(*old(t)).drop_last(),
{
    t.deque.push_front(s)
}

/// Relies on `ArrayDeque::pop_back`: removes and returns the back element,
/// or returns `None` on an empty deque.
#[verifier::external_body]
fn tail_pop_back(t: &mut Tail) -> (r: Option<Segment>)
    ensures
        tail_segments(*old(t)).len() == 0 ==> r is None && tail_segments(*final(t))
            == tail_segments(*old(t)),
        tail_segments(*old(t)).len() > 0 ==> r == Some(tail_segments(*old(t)).last())
            && tail_segments(*final(t)) == tail_segments(*old(t)).drop_last(),
{
    t.deque.pop_back()
}

/// Relies on `ArrayDeque::len`: the number of elements, at most the capacity.
#[verifier::external_body]
fn tail_len(t: &Tail) -> (r: usize)
    ensures
        r == tail_segments(*t).len(),
        r <= TAIL_CAPACITY,
{
    t.deque.len()
}

/// Relies on `ArrayDeque::get`: the element at `index`, counted from the
/// front, or `None` past the end.
#[verifier::external_body]
fn tail_get(t: &Tail, index: usize) -> (r: Option<Segment>)
    ensures
        index < tail_segments(*t).len() ==> r == Some(tail_segments(*t)[index as int]),
        index >= tail_segments(*t).len() ==> r is None,
{
    t.deque.get(index).copied()
}

/// What one move of the snake came to.
enum SlitherResult {
    /// The snake moved without eating; the segment dropped off its end.
    Moved(Segment),
    /// The snake ate the egg and grew by one.
    EggEaten,
    /// The head ran into the tail (or into a wall, which leaves it on the
    /// segment behind it).
    Collision,
}

/// The positions of a sequence of segments.
pub open spec fn positions(s: Seq<Segment>) -> Seq<Dot> {
    s.map_values(|g: Segment| g.position)
}

/// The heading after asking for `wanted`: a reversal is refused.
pub open spec fn turned(heading: Direction, wanted: Direction) -> Direction {
    if wanted == heading.spec_opposite() {
        heading
    } else {
        wanted
    }
}

/// Turning: asking for the exact opposite of the heading is refused and the
/// heading stays; asking for any other direction takes effect at once.
pub proof fn lemma_turning(heading: Direction, wanted: Direction)
    ensures
        turned(heading, heading.spec_opposite()) == heading,
        wanted != heading.spec_opposite() ==> turned(heading, wanted) == wanted,
{
}

/// The player's character: a head, and a tail that follows in its tracks.
struct Snake {
    head: Segment,
    tail: Tail,
}

impl Snake {
    /// The snake in its starting place: in the middle row, heading right,
    /// with the tail stretched out to the left.
    fn new() -> (r: Self)
        ensures
            r.head == start_head(),
            r.tail@ == start_tail(),
    {
        let head = Segment::new(0, 0, Direction::Up);
        let tail = tail_new();
        let mut snake = Snake { head, tail };
        snake.init();
        snake
    }

    /// Puts the snake back in its starting place.
    fn init(&mut self)
        ensures
            final(self).head == start_head(),
            final(self).tail@ == start_tail(),
    {
        tail_clear(&mut self.tail);
        self.head = Segment::new(START_LENGTH, SNAKE_START_Y, Direction::Right);
        tail_push_back(&mut self.tail, Segment::new(START_LENGTH - 1, SNAKE_START_Y, Direction::Right));
        tail_push_back(&mut self.tail, Segment::new(START_LENGTH - 2, SNAKE_START_Y, Direction::Right));
        assert(self.tail@ == start_tail());
    }

    /// Whether the head lies on a segment of the tail.
    fn check_collision(&self) -> (r: bool)
        ensures
            r == positions(self.tail@).contains(self.head.position),
    {
        let n = tail_len(&self.tail);
        let mut i: usize = 0;
        while i < n
            invariant
                n == self.tail@.len(),
                i <= n,
                forall|j: int| 0 <= j < i ==> self.tail@[j].position != self.head.position,
            decreases n - i,
        {
            if let Some(segment) = tail_get(&self.tail, i) {
                if self.head.position == segment.position {
                    assert(positions(self.tail@)[i as int] == self.head.position);
                    return true;
                }
            }
            i = i + 1;
        }
        assert(!positions(self.tail@).contains(self.head.position)) by {
            if positions(self.tail@).contains(self.head.position) {
                let j = choose|j: int|
                    0 <= j < positions(self.tail@).len() && positions(self.tail@)[j]
                        == self.head.position;
                assert(self.tail@[j].position == self.head.position);
            }
        }
        false
    }

    /// The number of segments, head included.
    fn get_length(&self) -> (r: usize)
        ensures
            r == self.tail@.len() + 1,
    {
        tail_len(&self.tail) + 1
    }

    /// Turns the head to `dir`, unless that is straight back.
    fn set_direction(&mut self, dir: Direction)
        ensures
            final(self).head == (Segment {
                direction: turned(old(self).head.direction, dir),
                position: old(self).head.position,
            }),
            final(self).tail == old(self).tail,
    {
        if dir.opposite() != self.head.direction {
            self.head.direction = dir;
        }
    }

    /// Moves the snake one step: the head goes one cell on in its direction
    /// and its old place becomes the front of the tail. Unless the head
    /// reaches the egg, the back segment of the tail is dropped, and the move
    /// is a collision when the head lies on what is left of the tail.
    fn slither(&mut self, egg: &Dot) -> (r: SlitherResult)
        requires
            old(self).tail@.len() < TAIL_CAPACITY,
        ensures
            final(self).head == old(self).head.spec_next(),
            final(self).head.position == *egg ==> r is EggEaten && final(self).tail@ == seq![
                old(self).head,
            ] + old(self).tail@,
            final(self).head.position != *egg ==> final(self).tail@ == (seq![old(self).head]
                + old(self).tail@).drop_last(),
            final(self).head.position != *egg && positions(final(self).tail@).contains(
                final(self).head.position,
            ) ==> r is Collision,
            final(self).head.position != *egg && !positions(final(self).tail@).contains(
                final(self).head.position,
            ) ==> r == SlitherResult::Moved((seq![old(self).head] + old(self).tail@).last()),
    {
        tail_push_front(&mut self.tail, self.head);
        self.head = self.head.next();
        if self.head.position == *egg {
            SlitherResult::EggEaten
        } else {
            let dropped = tail_pop_back(&mut self.tail).unwrap();
            if self.check_collision() {
                SlitherResult::Collision
            } else {
                SlitherResult::Moved(dropped)
            }
        }
    }
}

/// The column bytes of the title screen: a picture of a snake.
pub open spec fn snake_title_columns() -> Seq<u8> {
    seq![
        0b00000000u8,
        0b00000000u8,
        0b11011111u8,
        0b10011001u8,
        0b10011001u8,
        0b11111011u8,
        0b00000000u8,
        0b00000000u8,
    ]
}

/// The head at the start of a round.
pub open spec fn start_head() -> Segment {
    Segment { direction: Direction::Right, position: Dot { x: 3, y: 4 } }
}

/// The tail at the start of a round.
pub open spec fn start_tail() -> Seq<Segment> {
    seq![
        Segment { direction: Direction::Right, position: Dot { x: 2, y: 4 } },
        Segment { direction: Direction::Right, position: Dot { x: 1, y: 4 } },
    ]
}

/// How a tick of the game ended.
#[derive(Clone, Copy, Debug, PartialEq, Eq, Structural)]
pub enum UpdateResult {
    /// The snake moved on; the round goes on.
    Moved,
    /// The snake ate the egg and grew; a new egg was placed.
    EggEaten,
    /// The snake ran into itself or a wall; the round is over.
    Collision,
    /// The snake fills the grid; the player has won and the round is over.
    Won,
}

/// The free dots on a screen that shows exactly the distinct positions of
/// `body`: one for each dot that `body` does not cover.
proof fn lemma_free_count(screen: DotScreen, body: Seq<Segment>)
    requires
        positions(body).no_duplicates(),
        screen@ == positions(body).to_set(),
    ensures
        screen.dots_off().len() == DotScreen::TOTAL_DOTS - body.len(),
{
    positions(body).unique_seq_to_set();
    lemma_traversals(screen);
    screen.dots_on().unique_seq_to_set();
    assert(screen.dots_on().to_set() =~= screen@);
}

/// The game: the snake, the egg, the screen that shows them, and the time
/// between ticks.
pub struct SnakeGame {
    egg: Dot,
    snake: Snake,
    screen: DotScreen,
    polling_interval_ms: usize,
    over: bool,
}

impl SnakeGame {
    /// The head of the snake.
    pub closed spec fn head(&self) -> Segment {
        self.snake.head
    }

    /// The tail of the snake, front first.
    pub closed spec fn tail(&self) -> Seq<Segment> {
        self.snake.tail@
    }

    /// Where the egg is.
    pub closed spec fn egg_dot(&self) -> Dot {
        self.egg
    }

    /// The screen that shows the game.
    pub closed spec fn board(&self) -> DotScreen {
        self.screen
    }

    /// The time between ticks, in milliseconds.
    pub closed spec fn interval(&self) -> usize {
        self.polling_interval_ms
    }

    /// Whether the round has ended (a collision or a win).
    pub closed spec fn finished(&self) -> bool {
        self.over
    }

    /// The whole snake, head first.
    pub open spec fn body(&self) -> Seq<Segment> {
        seq![self.head()] + self.tail()
    }

    /// The number of segments, head included.
    pub open spec fn length(&self) -> int {
        (self.tail().len() + 1) as int
    }

    /// Where the head goes at the next tick.
    pub open spec fn next_head(&self) -> Segment {
        self.head().spec_next()
    }

    /// Whether the next tick reaches the egg.
    pub open spec fn eats(&self) -> bool {
        self.next_head().position == self.egg_dot()
    }

    /// The tail after a tick without eating: the old head in front, the back
    /// segment dropped.
    pub open spec fn moved_tail(&self) -> Seq<Segment> {
        self.body().drop_last()
    }

    /// Whether a tick without eating runs the head into the tail.
    pub open spec fn collides(&self) -> bool {
        positions(self.moved_tail()).contains(self.next_head().position)
    }

    /// The state of every game: the snake at least as long as at the start
    /// and at most one segment per dot, everything on the grid. While the
    /// round goes on, the segments lie on distinct dots, the egg on a free
    /// dot, and the screen shows exactly the snake and the egg.
    pub open spec fn wf(&self) -> bool {
        &&& START_LENGTH <= self.length() <= DotScreen::TOTAL_DOTS
        &&& forall|i: int| 0 <= i < self.body().len() ==> (#[trigger] self.body()[i]).position.in_grid()
        &&& self.egg_dot().in_grid()
        &&& !self.finished() ==> {
            &&& self.length() < DotScreen::TOTAL_DOTS
            &&& positions(self.body()).no_duplicates()
            &&& !positions(self.body()).contains(self.egg_dot())
            &&& self.board()@ == positions(self.body()).to_set().insert(self.egg_dot())
        }
    }

    /// The state at the start of a round.
    pub open spec fn is_initial(&self) -> bool {
        &&& self.head() == start_head()
        &&& self.tail() == start_tail()
        &&& self.egg_dot() == (Dot { x: 1, y: 6 })
        &&& self.board()@ == set![
            Dot { x: 1, y: 6 },
            Dot { x: 3, y: 4 },
            Dot { x: 2, y: 4 },
            Dot { x: 1, y: 4 },
        ]
        &&& self.interval() == INITIAL_POLL_INTERVAL
        &&& !self.finished()
    }

    /// A game at the start of a round.
    pub fn new() -> (r: Self)
        ensures
            r.wf(),
            r.is_initial(),
    {
        let egg = Dot { x: EGG_START_X, y: EGG_START_Y };
        let snake = Snake::new();
        let screen = DotScreen::new_empty();
        let mut game = SnakeGame {
            egg,
            snake,
            screen,
            polling_interval_ms: INITIAL_POLL_INTERVAL,
            over: false,
        };
        game.reset();
        game
    }

    /// The score: the segments grown since the start of the round.
    pub fn get_score(&self) -> (r: usize)
        requires
            self.wf(),
        ensures
            r == self.length() - START_LENGTH,
    {
        self.snake.get_length() - START_LENGTH
    }

    /// Shortens the time between ticks by 2%, rounded down.
    fn increase_speed(&mut self)
        ensures
            final(self).polling_interval_ms == old(self).polling_interval_ms
                - old(self).polling_interval_ms / 50,
            final(self).egg == old(self).egg,
            final(self).snake == old(self).snake,
            final(self).screen == old(self).screen,
            final(self).over == old(self).over,
    {
        self.polling_interval_ms = self.polling_interval_ms - self.polling_interval_ms / 50;
    }

    /// One tick. The snake moves one step in its heading. On the egg it
    /// grows: it wins when it then fills the grid, and otherwise a new egg
    /// goes on the free dot at place `random % (free dots)` of the raster
    /// order and the ticks get 2% shorter. Off the egg the back segment is
    /// dropped; landing on the tail (or staying put at a wall) is a
    /// collision, which ends the round, and otherwise the screen follows the
    /// move.
    pub fn update(&mut self, random: u32) -> (r: UpdateResult)
        requires
            old(self).wf(),
            !old(self).finished(),
        ensures
            final(self).wf(),
            final(self).head() == old(self).next_head(),
            final(self).finished() == (r == UpdateResult::Collision || r == UpdateResult::Won),
            old(self).eats() ==> final(self).tail() == old(self).body(),
            old(self).eats() && old(self).length() + 1 == DotScreen::TOTAL_DOTS ==> {
                &&& r == UpdateResult::Won
                &&& final(self).egg_dot() == old(self).egg_dot()
                &&& final(self).board() == old(self).board()
                &&& final(self).interval() == old(self).interval()
            },
            old(self).eats() && old(self).length() + 1 < DotScreen::TOTAL_DOTS ==> {
                &&& r == UpdateResult::EggEaten
                &&& final(self).egg_dot() == old(self).board().dots_off()[(random as int)
                    % (DotScreen::TOTAL_DOTS - old(self).length() - 1)]
                &&& final(self).board()@ == old(self).board()@.insert(final(self).egg_dot())
                &&& final(self).interval() == old(self).interval() - old(self).interval() / 50
            },
            !old(self).eats() ==> {
                &&& final(self).tail() == old(self).moved_tail()
                &&& final(self).egg_dot() == old(self).egg_dot()
                &&& final(self).interval() == old(self).interval()
            },
            !old(self).eats() && old(self).collides() ==> r == UpdateResult::Collision
                && final(self).board() == old(self).board(),
            !old(self).eats() && !old(self).collides() ==> r == UpdateResult::Moved
                && final(self).board()@ == old(self).board()@.remove(
                old(self).body().last().position,
            ).insert(old(self).next_head().position),
    {
        let ghost old_body = self.body();
        let ghost h = self.snake.head;
        proof {
            assert(positions(old_body) == seq![h.position] + positions(self.tail()));
            assert(old_body[0] == h);
            assert(old_body[0].position.in_grid());
            crate::dot::lemma_motion(h.position);
        }
        match self.snake.slither(&self.egg) {
            SlitherResult::Moved(dropped) => {
                proof {
                    let kept = old_body.drop_last();
                    assert(positions(kept) == positions(old_body).drop_last());
                    assert(positions(old_body) == positions(kept).push(dropped.position));
                    assert(positions(self.body()) == seq![self.snake.head.position] + positions(kept));
                    assert(!positions(kept).contains(dropped.position)) by {
                        if positions(kept).contains(dropped.position) {
                            let j = choose|j: int|
                                0 <= j < positions(kept).len() && positions(kept)[j]
                                    == dropped.position;
                            assert(positions(old_body)[j] == positions(old_body)[old_body.len()
                                - 1]);
                        }
                    }
                    assert(positions(old_body).contains(dropped.position)) by {
                        assert(positions(old_body)[old_body.len() - 1] == dropped.position);
                    }
                    assert forall|i: int| 0 <= i < self.body().len() implies (
                    #[trigger] self.body()[i]).position.in_grid() by {
                        if i > 0 {
                            assert(self.body()[i] == old_body[i - 1]);
                        }
                    }
                }
                self.screen.remove(&dropped.position);
                self.screen.add(&self.snake.head.position);
                proof {
                    let kept = old_body.drop_last();
                    assert forall|d: Dot| positions(old_body).contains(d) <==> (positions(
                        kept,
                    ).contains(d) || d == dropped.position) by {
                        assert(positions(old_body) == positions(kept).push(dropped.position));
                        if positions(old_body).contains(d) {
                            let j = choose|j: int|
                                0 <= j < positions(old_body).len() && positions(old_body)[j] == d;
                            if j < kept.len() {
                                assert(positions(kept)[j] == d);
                            }
                        }
                        if positions(kept).contains(d) {
                            let j = choose|j: int|
                                0 <= j < positions(kept).len() && positions(kept)[j] == d;
                            assert(positions(old_body)[j] == d);
                        }
                    }
                    assert forall|d: Dot| positions(self.body()).contains(d) <==> (positions(
                        kept,
                    ).contains(d) || d == self.snake.head.position) by {
                        let p = positions(self.body());
                        if p.contains(d) {
                            let j = choose|j: int| 0 <= j < p.len() && p[j] == d;
                            if j > 0 {
                                assert(positions(kept)[j - 1] == d);
                            }
                        }
                        if positions(kept).contains(d) {
                            let j = choose|j: int|
                                0 <= j < positions(kept).len() && positions(kept)[j] == d;
                            assert(p[j + 1] == d);
                        }
                        assert(p[0] == self.snake.head.position);
                    }
                    assert(dropped.position != self.egg);
                    assert(positions(self.body()).to_set().insert(self.egg) =~= self.screen@);
                    assert(positions(self.body()).no_duplicates()) by {
                        let p = positions(self.body());
                        assert forall|i: int, j: int|
                            0 <= i < p.len() && 0 <= j < p.len() && i != j implies p[i] != p[j] by {
                            if i > 0 && j > 0 {
                                assert(p[i] == positions(kept)[i - 1]);
                                assert(p[j] == positions(kept)[j - 1]);
                            } else if i == 0 {
                                assert(p[j] == positions(kept)[j - 1]);
                            } else {
                                assert(p[i] == positions(kept)[i - 1]);
                            }
                        }
                    }
                }
                UpdateResult::Moved
            },
            SlitherResult::EggEaten => {
                proof {
                    assert(positions(self.body()) == seq![self.snake.head.position] + positions(
                        old_body,
                    ));
                    assert forall|i: int| 0 <= i < self.body().len() implies (
                    #[trigger] self.body()[i]).position.in_grid() by {
                        if i > 0 {
                            assert(self.body()[i] == old_body[i - 1]);
                        }
                    }
                }
                if self.snake.get_length() - START_LENGTH == VICTORY {
                    self.over = true;
                    return UpdateResult::Won;
                }
                let modulus = DotScreen::TOTAL_DOTS - self.snake.get_length();
                let index = (random as usize) % modulus;
                proof {
                    let p = positions(self.body());
                    assert(p.no_duplicates()) by {
                        assert forall|i: int, j: int|
                            0 <= i < p.len() && 0 <= j < p.len() && i != j implies p[i] != p[j] by {
                            if i > 0 && j > 0 {
                                assert(p[i] == positions(old_body)[i - 1]);
                                assert(p[j] == positions(old_body)[j - 1]);
                            } else if i == 0 {
                                assert(p[j] == positions(old_body)[j - 1]);
                            } else {
                                assert(p[i] == positions(old_body)[i - 1]);
                            }
                        }
                    }
                    assert forall|d: Dot| p.contains(d) <==> (positions(old_body).contains(d) || d
                        == self.snake.head.position) by {
                        if p.contains(d) {
                            let j = choose|j: int| 0 <= j < p.len() && p[j] == d;
                            if j > 0 {
                                assert(positions(old_body)[j - 1] == d);
                            }
                        }
                        if positions(old_body).contains(d) {
                            let j = choose|j: int|
                                0 <= j < positions(old_body).len() && positions(old_body)[j] == d;
                            assert(p[j + 1] == d);
                        }
                        assert(p[0] == self.snake.head.position);
                    }
                    assert(self.screen@ =~= p.to_set());
                    lemma_free_count(self.screen, self.body());
                }
                let ghost board = self.screen;
                let mut free = self.screen.iter_off();
                let egg = free.nth(index).unwrap();
                proof {
                    lemma_traversals(board);
                    assert(board.dots_off().contains(egg));
                }
                self.egg = egg;
                self.screen.add(&self.egg);
                self.increase_speed();
                proof {
                    assert(positions(self.body()).to_set().insert(self.egg) =~= self.screen@);
                }
                UpdateResult::EggEaten
            },
            SlitherResult::Collision => {
                proof {
                    assert forall|i: int| 0 <= i < self.body().len() implies (
                    #[trigger] self.body()[i]).position.in_grid() by {
                        if i > 0 {
                            assert(self.body()[i] == old_body[i - 1]);
                        }
                    }
                }
                self.over = true;
                UpdateResult::Collision
            },
        }
    }

    /// Puts the game back at the start of a round.
    pub fn reset(&mut self)
        ensures
            final(self).wf(),
            final(self).is_initial(),
    {
        self.egg = Dot { x: EGG_START_X, y: EGG_START_Y };
        self.snake.init();
        self.screen.clear();
        self.screen.add(&self.egg);
        self.screen.add(&self.snake.head.position);
        let n = tail_len(&self.snake.tail);
        let mut i: usize = 0;
        while i < n
            invariant
                n == self.snake.tail@.len(),
                self.snake.tail@ == start_tail(),
                self.snake.head == start_head(),
                self.egg == (Dot { x: 1, y: 6 }),
                i <= n,
                self.screen@ == set![Dot { x: 1, y: 6 }, Dot { x: 3, y: 4 }] + positions(
                    self.snake.tail@,
                ).take(i as int).to_set(),
            decreases n - i,
        {
            if let Some(segment) = tail_get(&self.snake.tail, i) {
                self.screen.add(&segment.position);
            }
            assert(positions(self.snake.tail@).take(i + 1) == positions(self.snake.tail@).take(
                i as int,
            ).push(self.snake.tail@[i as int].position));
            proof {
                positions(self.snake.tail@).take(i as int).lemma_push_to_set_commute(
                    self.snake.tail@[i as int].position,
                );
            }
            assert(self.screen@ =~= set![Dot { x: 1, y: 6 }, Dot { x: 3, y: 4 }] + positions(
                self.snake.tail@,
            ).take(i + 1).to_set());
            i = i + 1;
        }
        self.polling_interval_ms = INITIAL_POLL_INTERVAL;
        self.over = false;
        proof {
            let p = positions(self.body());
            assert(p == seq![Dot { x: 3, y: 4 }, Dot { x: 2, y: 4 }, Dot { x: 1, y: 4 }]);
            assert(positions(self.snake.tail@).take(2) == seq![Dot { x: 2, y: 4 }, Dot { x: 1, y: 4 }]);
            assert(self.screen@ =~= set![
                Dot { x: 1, y: 6 },
                Dot { x: 3, y: 4 },
                Dot { x: 2, y: 4 },
                Dot { x: 1, y: 4 },
            ]);
            assert(p.to_set().insert(self.egg) =~= self.screen@) by {
                assert(p.contains(Dot { x: 3, y: 4 }) && p[0] == Dot { x: 3, y: 4 });
                assert(p[1] == Dot { x: 2, y: 4 } && p[2] == Dot { x: 1, y: 4 });
            }
            assert(!p.contains(self.egg));
        }
    }

    /// Turns the snake to `dir`, unless that is straight back: a reversal
    /// is refused and the heading stays. Nothing else changes.
    pub fn set_direction(&mut self, dir: Direction)
        requires
            old(self).wf(),
        ensures
            final(self).wf(),
            final(self).head().direction == turned(old(self).head().direction, dir),
            final(self).head().position == old(self).head().position,
            final(self).tail() == old(self).tail(),
            final(self).egg_dot() == old(self).egg_dot(),
            final(self).board() == old(self).board(),
            final(self).interval() == old(self).interval(),
            final(self).finished() == old(self).finished(),
    {
        self.snake.set_direction(dir);
        proof {
            assert(positions(self.body()) =~= positions(old(self).body()));
            assert forall|i: int| 0 <= i < self.body().len() implies (
            #[trigger] self.body()[i]).position.in_grid() by {
                assert(self.body()[i].position == old(self).body()[i].position);
            }
        }
    }

    /// Steers by the newest signal of a poll, if any: a signal that points
    /// in one direction turns the snake that way (a reversal is refused).
    pub fn steer(&mut self, signal: Option<InputSignal>)
        requires
            old(self).wf(),
        ensures
            final(self).wf(),
            final(self).head().direction == match signal {
                Some(InputSignal::JoyStick(s)) => match s.spec_single_direction() {
                    Some(d) => turned(old(self).head().direction, d),
                    None => old(self).head().direction,
                },
                None => old(self).head().direction,
            },
            final(self).head().position == old(self).head().position,
            final(self).tail() == old(self).tail(),
            final(self).egg_dot() == old(self).egg_dot(),
            final(self).board() == old(self).board(),
            final(self).interval() == old(self).interval(),
            final(self).finished() == old(self).finished(),
    {
        if let Some(InputSignal::JoyStick(s)) = signal {
            if let Some(direction) = s.to_single_direction() {
                self.set_direction(direction);
            }
        }
    }

    /// The screen of the game with the egg dark, for making it blink.
    pub fn screen_without_egg(&self) -> (r: DotScreen)
        requires
            self.wf(),
        ensures
            r@ == self.board()@.remove(self.egg_dot()),
    {
        let mut screen = self.screen;
        screen.remove(&self.egg);
        screen
    }

    /// How many dots the end-of-round tally lights: one per point.
    pub fn score_tally(&self) -> (r: usize)
        requires
            self.wf(),
        ensures
            r == self.length() - START_LENGTH,
    {
        self.get_score()
    }

    /// The frame of the tally that lights the first `count` dots of the
    /// raster order.
    pub fn tally_screen(count: usize) -> (r: DotScreen)
        requires
            count <= DotScreen::TOTAL_DOTS,
        ensures
            r@ == Set::new(|d: Dot| d.in_grid() && raster_index(d) < count),
    {
        let mut screen = DotScreen::new_empty();
        let mut dots = screen.iter();
        let ghost all = screen.all_dots();
        proof {
            lemma_all_from(screen, 0);
        }
        let mut i: usize = 0;
        while i < count
            invariant
                i <= count <= 64,
                all.len() == 64,
                forall|k: int| 0 <= k < 64 ==> #[trigger] all[k] == crate::dot_screen::raster_dot(k),
                dots@ == all.subrange(i as int, 64),
                screen@ == Set::new(|d: Dot| d.in_grid() && raster_index(d) < i),
            decreases count - i,
        {
            let ghost before = dots@;
            let next = dots.next();
            proof {
                lemma_raster(i as int);
                assert(before[0] == all[i as int]);
                assert(dots@ =~= all.subrange(i + 1, 64));
            }
            if let Some(dot) = next {
                screen.add(&dot);
            }
            proof {
                let d0 = crate::dot_screen::raster_dot(i as int);
                assert forall|d: Dot| screen@.contains(d) <==> (d.in_grid() && raster_index(d) < i
                    + 1) by {
                    if d.in_grid() && raster_index(d) == i {
                        crate::dot_screen::lemma_raster_inverse(d);
                    }
                }
                assert(screen@ =~= Set::new(|d: Dot| d.in_grid() && raster_index(d) < i + 1));
            }
            i = i + 1;
        }
        screen
    }

    /// The title screen of the game: a picture of a snake.
    pub fn title_screen(&self) -> (r: DotScreen)
        ensures
            r.columns@ == snake_title_columns(),
    {
        let r = DotScreen::new(
            [
                0b00000000,
                0b00000000,
                0b11011111,
                0b10011001,
                0b10011001,
                0b11111011,
                0b00000000,
                0b00000000,
            ],
        );
        assert(r.columns@ =~= snake_title_columns());
        r
    }

    /// Where the head of the snake is.
    pub fn head_position(&self) -> (r: Dot)
        ensures
            r == self.head().position,
    {
        self.snake.head.position
    }

    /// Which way the snake is heading.
    pub fn heading(&self) -> (r: Direction)
        ensures
            r == self.head().direction,
    {
        self.snake.head.direction
    }

    /// Where the egg is.
    pub fn egg(&self) -> (r: Dot)
        ensures
            r == self.egg_dot(),
    {
        self.egg
    }

    /// The screen that shows the game.
    pub fn screen(&self) -> (r: DotScreen)
        ensures
            r == self.board(),
    {
        self.screen
    }

    /// The time between ticks, in milliseconds.
    pub fn polling_interval_ms(&self) -> (r: usize)
        ensures
            r == self.interval(),
    {
        self.polling_interval_ms
    }

    /// Whether the round has ended.
    pub fn is_over(&self) -> (r: bool)
        ensures
            r == self.finished(),
    {
        self.over
    }
}

} // verus!
