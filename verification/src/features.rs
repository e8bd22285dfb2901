//! What a decision source is shown of a state: the board as one plane for
//! each kind of fruit, what the two players hold and where they stand, and
//! which moves are barred. Every number is in thousandths.
use vstd::prelude::*;
use vstd::arithmetic::div_mod::lemma_fundamental_div_mod_converse;
use crate::board::BoardView;
use crate::fruit::FruitType;
use crate::player::Player;
use crate::position::{Action, Direction, Position};
use crate::state::{legal, GameState, GameView, PlayerIdx};

verus! {

/// The least side of the square that the planes cover. A smaller board lies
/// in its corner; a larger board is covered whole.
pub const VIEW_SIDE: usize = 10;

/// What a state looks like from one seat, in thousandths.
#[derive(Debug)]
pub struct StateView {
    /// For each cell of the square that the planes cover and each kind, 1000
    /// where the cell holds that kind and 0 elsewhere. The kind varies
    /// fastest, then the second coordinate.
    pub fruit_channels: Vec<u64>,
    /// What the player in the seat holds of apples, bananas and oranges, and a
    /// tenth of each of its coordinates.
    pub own_info: Vec<u64>,
    /// The same for the other player.
    pub their_info: Vec<u64>,
    /// A hundredth of the distance between the players along the grid: the
    /// horizontal distance plus the vertical distance.
    pub grid_distance: u64,
}

/// The kind that the plane `channel` shows.
pub open spec fn plane_kind(channel: int) -> FruitType {
    if channel == 0 {
        FruitType::Apple
    } else if channel == 1 {
        FruitType::Banana
    } else {
        FruitType::Orange
    }
}

/// The side of the square that the planes cover for a board of side `size`:
/// the board's own, but no less than ten.
pub open spec fn plane_side(size: int) -> int {
    if size > VIEW_SIDE {
        size
    } else {
        VIEW_SIDE as int
    }
}

/// What the plane of `channel` shows of the cell `(x, y)`: 1000 where the cell
/// lies on the board and holds the kind of the plane, 0 elsewhere.
pub open spec fn plane_cell(board: BoardView, x: int, y: int, channel: int) -> u64 {
    if x < board.size && y < board.size && board.fruit_at(x, y) == Some(plane_kind(channel)) {
        1000
    } else {
        0
    }
}

/// The entry `i` of the planes of `board`: three entries for each cell, the
/// cells column after column.
pub open spec fn plane_entry(board: BoardView, i: int) -> u64 {
    let side = plane_side(board.size as int);
    plane_cell(board, (i / 3) / side, (i / 3) % side, i % 3)
}

/// The planes of `board`.
pub open spec fn planes(board: BoardView) -> Seq<u64> {
    let side = plane_side(board.size as int);
    Seq::new((side * side * 3) as nat, |i: int| plane_entry(board, i))
}

/// Where the entry of the cell `(x, y)` and the plane `channel` stands among
/// the planes of side `side`.
pub open spec fn plane_index(side: int, x: int, y: int, channel: int) -> int {
    (x * side + y) * 3 + channel
}

/// An index among the planes is that of one cell and one plane.
pub proof fn lemma_plane_index(side: int, x: int, y: int, channel: int)
    requires
        0 < side,
        0 <= x < side,
        0 <= y < side,
        0 <= channel < 3,
    ensures
        0 <= plane_index(side, x, y, channel) < side * side * 3,
        plane_index(side, x, y, channel) / 3 == x * side + y,
        plane_index(side, x, y, channel) % 3 == channel,
        (plane_index(side, x, y, channel) / 3) / side == x,
        (plane_index(side, x, y, channel) / 3) % side == y,
{
    let cell = x * side + y;
    assert(0 <= x * side && (x + 1) * side <= side * side && (x + 1) * side == x * side + side)
        by (nonlinear_arith)
        requires
            0 <= x < side,
    ;
    lemma_fundamental_div_mod_converse(cell * 3 + channel, 3, cell, channel);
    lemma_fundamental_div_mod_converse(cell, side, x, y);
}

/// The planes hold, for every cell of the square they cover and every kind,
/// what the plane of that kind shows of the cell.
pub proof fn lemma_planes_hold_every_cell(board: BoardView, x: int, y: int, channel: int)
    requires
        0 <= x < plane_side(board.size as int),
        0 <= y < plane_side(board.size as int),
        0 <= channel < 3,
    ensures
        planes(board).len() == plane_side(board.size as int) * plane_side(board.size as int) * 3,
        0 <= plane_index(plane_side(board.size as int), x, y, channel) < planes(board).len(),
        planes(board)[plane_index(plane_side(board.size as int), x, y, channel)] == plane_cell(
            board,
            x,
            y,
            channel,
        ),
{
    let side = plane_side(board.size as int);
    lemma_plane_index(side, x, y, channel);
    assert(0 <= side * side * 3) by (nonlinear_arith)
        requires
            0 < side,
    ;
}

/// What is shown of one player.
pub open spec fn player_info(player: Player) -> Seq<u64> {
    seq![
        player.fruit_counts.apple,
        player.fruit_counts.banana,
        player.fruit_counts.orange,
        (player.position.x * 100) as u64,
        (player.position.y * 100) as u64,
    ]
}

/// How far `a` and `b` lie apart.
pub open spec fn apart(a: int, b: int) -> int {
    if a >= b {
        a - b
    } else {
        b - a
    }
}

/// The distance along the grid from `own` to `their`, in thousandths of a
/// hundred cells.
pub open spec fn grid_gap(own: Position, their: Position) -> int {
    (apart(own.x as int, their.x as int) + apart(own.y as int, their.y as int)) * 10
}

/// The entry of the mask for `direction`: 1000 where the move is barred, 0
/// where it is legal.
pub open spec fn mask_entry(size: int, pos: Position, direction: Direction) -> u64 {
    if legal(size, pos, Action::Move(direction)) {
        0
    } else {
        1000
    }
}

/// The mask of the player that stands on `pos`: one entry for each of up,
/// down, left and right.
pub open spec fn move_mask(size: int, pos: Position) -> Seq<u64> {
    seq![
        mask_entry(size, pos, Direction::Up),
        mask_entry(size, pos, Direction::Down),
        mask_entry(size, pos, Direction::Left),
        mask_entry(size, pos, Direction::Right),
    ]
}

/// The sign that stands for the cell `(x, y)` when a state is drawn: the
/// letter of a fruit, else the number of a player that stands there, else a
/// hash.
pub open spec fn glyph(state: GameView, x: int, y: int) -> char {
    match state.board.fruit_at(x, y) {
        Some(FruitType::Apple) => 'A',
        Some(FruitType::Banana) => 'B',
        Some(FruitType::Orange) => 'C',
        None => if state.player1.position.x == x && state.player1.position.y == y {
            '1'
        } else if state.player2.position.x == x && state.player2.position.y == y {
            '2'
        } else {
            '#'
        },
    }
}

impl GameState {
    /// The sign that stands for the cell `(x, y)` when the state is drawn.
    pub fn cell_glyph(&self, x: i8, y: i8) -> (sign: char)
        requires
            self@.board.shaped(),
            0 <= x < self.board.size,
            0 <= y < self.board.size,
        ensures
            sign == glyph(self@, x as int, y as int),
    {
        match self.board.get_fruit(x as usize, y as usize) {
            Some(FruitType::Apple) => 'A',
            Some(FruitType::Banana) => 'B',
            Some(FruitType::Orange) => 'C',
            None => {
                if x == self.player1.position.x && y == self.player1.position.y {
                    '1'
                } else if x == self.player2.position.x && y == self.player2.position.y {
                    '2'
                } else {
                    '#'
                }
            },
        }
    }

    /// What the state looks like from the seat `idx`, and the mask of the
    /// moves that are barred to the player in that seat.
    pub fn get_state_vec_view(current_state: &GameState, idx: PlayerIdx) -> (shown: (
        StateView,
        Vec<u64>,
    ))
        requires
            current_state@.wf(),
        ensures
            shown.0.fruit_channels@ == planes(current_state@.board),
            shown.0.own_info@ == player_info(current_state@.seat(idx)),
            shown.0.their_info@ == player_info(current_state@.opposite(idx)),
            shown.0.grid_distance == grid_gap(
                current_state@.seat(idx).position,
                current_state@.opposite(idx).position,
            ),
            shown.1@ == move_mask(
                current_state.board.size as int,
                current_state@.seat(idx).position,
            ),
    {
        let (own, their) = match idx {
            PlayerIdx::Player1 => (current_state.player1, current_state.player2),
            PlayerIdx::Player2 => (current_state.player2, current_state.player1),
        };
        let action_mask = GameState::mask_of(current_state.board.size, &own.position);
        let fruit_channels = current_state.fruit_planes();
        let own_info = GameState::info_of(&own);
        let their_info = GameState::info_of(&their);

        let across: i16 = if own.position.x >= their.position.x {
            own.position.x as i16 - their.position.x as i16
        } else {
            their.position.x as i16 - own.position.x as i16
        };
        let down: i16 = if own.position.y >= their.position.y {
            own.position.y as i16 - their.position.y as i16
        } else {
            their.position.y as i16 - own.position.y as i16
        };
        let view = StateView {
            fruit_channels,
            own_info,
            their_info,
            grid_distance: (across + down) as u64 * 10,
        };
        (view, action_mask)
    }

    /// The mask of a player that stands on `pos` on a board of `size` by
    /// `size` cells.
    pub fn mask_of(size: i8, pos: &Position) -> (mask: Vec<u64>)
        ensures
            mask@ == move_mask(size as int, *pos),
    {
        let limit: i16 = size as i16;
        let x: i16 = pos.x as i16;
        let y: i16 = pos.y as i16;
        let mut mask: Vec<u64> = Vec::new();
        mask.push(if 0 <= x && x < limit && 0 <= y - 1 && y - 1 < limit { 0 } else { 1000 });
        mask.push(if 0 <= x && x < limit && 0 <= y + 1 && y + 1 < limit { 0 } else { 1000 });
        mask.push(if 0 <= x - 1 && x - 1 < limit && 0 <= y && y < limit { 0 } else { 1000 });
        mask.push(if 0 <= x + 1 && x + 1 < limit && 0 <= y && y < limit { 0 } else { 1000 });
        assert(mask@ =~= move_mask(size as int, *pos));
        mask
    }

    /// What is shown of `player`.
    pub fn info_of(player: &Player) -> (info: Vec<u64>)
        requires
            player.position.x >= 0,
            player.position.y >= 0,
        ensures
            info@ == player_info(*player),
    {
        let mut info: Vec<u64> = Vec::new();
        info.push(player.fruit_counts.apple);
        info.push(player.fruit_counts.banana);
        info.push(player.fruit_counts.orange);
        info.push(player.position.x as u64 * 100);
        info.push(player.position.y as u64 * 100);
        assert(info@ =~= player_info(*player));
        info
    }

    /// The planes of the board.
    pub fn fruit_planes(&self) -> (channels: Vec<u64>)
        requires
            self@.board.shaped(),
        ensures
            channels@ == planes(self@.board),
    {
        let size: usize = self.board.size as usize;
        let side: usize = if size > VIEW_SIDE {
            size
        } else {
            VIEW_SIDE
        };
        let mut channels: Vec<u64> = Vec::new();
        let mut x: usize = 0;
        while x < side
            invariant
                self@.board.shaped(),
                size == self.board.size,
                side == plane_side(size as int),
                x <= side,
                channels@.len() == x * side * 3,
                forall|i: int|
                    0 <= i < channels@.len() ==> (#[trigger] channels@[i]) == plane_entry(
                        self@.board,
                        i,
                    ),
            decreases side - x,
        {
            let mut y: usize = 0;
            while y < side
                invariant
                    self@.board.shaped(),
                    size == self.board.size,
                    side == plane_side(size as int),
                    x < side,
                    y <= side,
                    channels@.len() == (x * side + y) * 3,
                    forall|i: int|
                        0 <= i < channels@.len() ==> (#[trigger] channels@[i]) == plane_entry(
                            self@.board,
                            i,
                        ),
                decreases side - y,
            {
                let held: Option<FruitType> = if x < size && y < size {
                    self.board.get_fruit(x, y)
                } else {
                    None
                };
                proof {
                    lemma_plane_index(side as int, x as int, y as int, 0);
                    lemma_plane_index(side as int, x as int, y as int, 1);
                    lemma_plane_index(side as int, x as int, y as int, 2);
                }
                channels.push(if held == Some(FruitType::Apple) { 1000 } else { 0 });
                channels.push(if held == Some(FruitType::Banana) { 1000 } else { 0 });
                channels.push(if held == Some(FruitType::Orange) { 1000 } else { 0 });
                y = y + 1;
            }
            assert((x * side + side) * 3 == (x + 1) * side * 3) by (nonlinear_arith);
            x = x + 1;
        }
        assert(channels@ =~= planes(self@.board));
        channels
    }
}

} // verus!
