//! Cells, directions and actions.
use vstd::prelude::*;
use vstd::std_specs::ops::AddSpecImpl;
use crate::random::draw_between;

verus! {

/// A cell coordinate. A candidate target of a move may lie off the board.
#[derive(Clone, Copy, Debug, PartialEq, Eq, Hash, Structural)]
pub struct Position {
    pub x: i8,
    pub y: i8,
}

/// One of the four unit moves.
#[derive(Clone, Copy, Debug, PartialEq, Eq, Hash, Structural)]
pub enum Direction {
    Up,
    Down,
    Left,
    Right,
}

/// What a player does in one round.
#[derive(Clone, Copy, Debug, PartialEq, Eq, Hash, Structural)]
pub enum Action {
    Move(Direction),
    DoNothing,
}

impl Position {
    /// The cell with the coordinates `x` and `y`.
    pub fn new(x: i8, y: i8) -> (p: Position)
        ensures
            p == (Position { x, y }),
    {
        Position { x, y }
    }

    /// The cell lies on a board of `size` by `size` cells.
    pub open spec fn within(self, size: int) -> bool {
        0 <= self.x < size && 0 <= self.y < size
    }

    /// The cell reached from `self` by `action`, as a pair of unbounded
    /// coordinates.
    pub open spec fn target(self, action: Action) -> (int, int) {
        match action {
            Action::DoNothing => (self.x as int, self.y as int),
            Action::Move(d) => (self.x + d.dx(), self.y + d.dy()),
        }
    }

    /// A cell of a board of `max` by `max` cells, drawn from the thread's
    /// generator.
    pub fn random_position(max: &i8, rng: &mut rand::rngs::ThreadRng) -> (pos: Position)
        requires
            *max > 0,
        ensures
            pos.within(*max as int),
    {
        let x: i32 = draw_between(rng, 0, *max as i32 - 1);
        let y: i32 = draw_between(rng, 0, *max as i32 - 1);
        Position { x: x as i8, y: y as i8 }
    }
}

impl core::ops::Add<Position> for Position {
    type Output = Position;

    fn add(self, rhs: Position) -> (sum: Position) {
        Position { x: self.x + rhs.x, y: self.y + rhs.y }
    }
}

impl AddSpecImpl<Position> for Position {
    open spec fn obeys_add_spec() -> bool {
        true
    }

    open spec fn add_req(self, rhs: Position) -> bool {
        &&& i8::MIN <= self.x + rhs.x <= i8::MAX
        &&& i8::MIN <= self.y + rhs.y <= i8::MAX
    }

    open spec fn add_spec(self, rhs: Position) -> Position {
        Position { x: (self.x + rhs.x) as i8, y: (self.y + rhs.y) as i8 }
    }
}

impl Direction {
    /// Horizontal displacement.
    pub open spec fn dx(self) -> int {
        match self {
            Direction::Up => 0,
            Direction::Down => 0,
            Direction::Left => -1,
            Direction::Right => 1,
        }
    }

    /// Vertical displacement; rows are counted downwards.
    pub open spec fn dy(self) -> int {
        match self {
            Direction::Up => -1,
            Direction::Down => 1,
            Direction::Left => 0,
            Direction::Right => 0,
        }
    }

    /// The wire code of the direction.
    pub open spec fn code(self) -> int {
        match self {
            Direction::Up => 0,
            Direction::Down => 1,
            Direction::Left => 2,
            Direction::Right => 3,
        }
    }

    /// The unit displacement of the direction.
    pub fn as_pos(&self) -> (p: Position)
        ensures
            p.x == self.dx(),
            p.y == self.dy(),
    {
        match self {
            Direction::Up => Position::new(0, -1),
            Direction::Down => Position::new(0, 1),
            Direction::Left => Position::new(-1, 0),
            Direction::Right => Position::new(1, 0),
        }
    }
}

impl Action {
    /// The wire code of the action: the four directions count from 0, doing
    /// nothing is 4.
    pub open spec fn code(self) -> int {
        match self {
            Action::Move(d) => d.code(),
            Action::DoNothing => 4,
        }
    }

    /// The action a wire code stands for; any code that is no direction means
    /// doing nothing.
    pub open spec fn decode(n: int) -> Action {
        if n == 0 {
            Action::Move(Direction::Up)
        } else if n == 1 {
            Action::Move(Direction::Down)
        } else if n == 2 {
            Action::Move(Direction::Left)
        } else if n == 3 {
            Action::Move(Direction::Right)
        } else {
            Action::DoNothing
        }
    }

    /// The wire code of `a`.
    pub fn as_num(a: Action) -> (n: i32)
        ensures
            n == a.code(),
    {
        match a {
            Action::Move(Direction::Up) => 0,
            Action::Move(Direction::Down) => 1,
            Action::Move(Direction::Left) => 2,
            Action::Move(Direction::Right) => 3,
            Action::DoNothing => 4,
        }
    }

    /// The action that the wire code `n` stands for.
    pub fn from_num(n: i32) -> (a: Action)
        ensures
            a == Action::decode(n as int),
    {
        match n {
            0 => Action::Move(Direction::Up),
            1 => Action::Move(Direction::Down),
            2 => Action::Move(Direction::Left),
            3 => Action::Move(Direction::Right),
            _ => Action::DoNothing,
        }
    }
}

/// Decoding undoes encoding.
pub proof fn lemma_decode_code(a: Action)
    ensures
        Action::decode(a.code()) == a,
        0 <= a.code() <= 4,
{
}

} // verus!
