//! The state of one match and the records taken of it.
use vstd::prelude::*;
use crate::board::{BoardState, BoardView};
use crate::fruit::FruitType;
use crate::player::Player;
use crate::position::{Action, Direction, Position};

verus! {

/// Which of the two players won.
#[derive(Clone, Copy, Debug, PartialEq, Eq, Hash, Structural)]
pub enum PlayerWinner {
    Player1,
    Player2,
}

/// Whether a match is still being played.
#[derive(Clone, Copy, Debug, PartialEq, Eq, Hash, Structural)]
pub enum WinState {
    InProgress,
    Finished(PlayerWinner),
}

/// One of the two seats of a match.
#[derive(Clone, Copy, Debug, PartialEq, Eq, Hash, Structural)]
pub enum PlayerIdx {
    Player1,
    Player2,
}

/// Everything that one match consists of at one moment.
#[derive(Debug)]
pub struct GameState {
    pub player1: Player,
    pub player2: Player,
    pub board: BoardState,
    pub round: u32,
    pub match_status: WinState,
}

/// What a game state is, whatever array holds its board.
pub struct GameView {
    pub player1: Player,
    pub player2: Player,
    pub board: BoardView,
    pub round: u32,
    pub match_status: WinState,
}

impl View for GameState {
    type V = GameView;

    open spec fn view(&self) -> GameView {
        GameView {
            player1: self.player1,
            player2: self.player2,
            board: self.board@,
            round: self.round,
            match_status: self.match_status,
        }
    }
}

impl Clone for GameState {
    fn clone(&self) -> (copy: GameState)
        ensures
            copy@ == self@,
    {
        GameState {
            player1: self.player1,
            player2: self.player2,
            board: self.board.clone(),
            round: self.round,
            match_status: self.match_status,
        }
    }
}

/// `action` keeps a player that stands on `pos` on a board of `size` by `size`
/// cells. Doing nothing is always legal.
pub open spec fn legal(size: int, pos: Position, action: Action) -> bool {
    match action {
        Action::DoNothing => true,
        Action::Move(_) => {
            let t = pos.target(action);
            0 <= t.0 < size && 0 <= t.1 < size
        },
    }
}

impl GameView {
    /// The invariant of a game state: a well-formed board with both players
    /// on it.
    pub open spec fn wf(self) -> bool {
        &&& self.board.wf()
        &&& self.player1.position.within(self.board.size as int)
        &&& self.player2.position.within(self.board.size as int)
    }

    /// The players stand on different cells.
    pub open spec fn players_apart(self) -> bool {
        self.player1.position != self.player2.position
    }

    /// Neither player stands on a fruit.
    pub open spec fn players_on_empty_cells(self) -> bool {
        &&& self.board.fruit_at(
            self.player1.position.x as int,
            self.player1.position.y as int,
        ) is None
        &&& self.board.fruit_at(
            self.player2.position.x as int,
            self.player2.position.y as int,
        ) is None
    }

    /// The player in seat `idx`.
    pub open spec fn seat(self, idx: PlayerIdx) -> Player {
        match idx {
            PlayerIdx::Player1 => self.player1,
            PlayerIdx::Player2 => self.player2,
        }
    }

    /// The player in the other seat.
    pub open spec fn opposite(self, idx: PlayerIdx) -> Player {
        match idx {
            PlayerIdx::Player1 => self.player2,
            PlayerIdx::Player2 => self.player1,
        }
    }
}

/// One recorded round: the state before the round, what the first player did
/// and could have done, what the round earned it, and whether the round ended
/// the match.
#[derive(Debug)]
pub struct SAR {
    pub gamestate: GameState,
    pub actions: Action,
    pub action_mask: Vec<Action>,
    pub reward: i64,
    pub terminal: bool,
}

/// What a recorded round is, whatever arrays hold it.
pub struct SarView {
    pub gamestate: GameView,
    pub actions: Action,
    pub action_mask: Seq<Action>,
    pub reward: i64,
    pub terminal: bool,
}

impl View for SAR {
    type V = SarView;

    open spec fn view(&self) -> SarView {
        SarView {
            gamestate: self.gamestate@,
            actions: self.actions,
            action_mask: self.action_mask@,
            reward: self.reward,
            terminal: self.terminal,
        }
    }
}

impl Clone for SAR {
    fn clone(&self) -> (copy: SAR)
        ensures
            copy@ == self@,
    {
        SAR {
            gamestate: self.gamestate.clone(),
            actions: self.actions,
            action_mask: copy_actions(&self.action_mask),
            reward: self.reward,
            terminal: self.terminal,
        }
    }
}

/// A copy of a list of actions.
pub fn copy_actions(actions: &Vec<Action>) -> (copy: Vec<Action>)
    ensures
        copy@ == actions@,
{
    let mut copy: Vec<Action> = Vec::new();
    let mut i: usize = 0;
    while i < actions.len()
        invariant
            i <= actions.len(),
            copy@ == actions@.take(i as int),
        decreases actions.len() - i,
    {
        copy.push(actions[i]);
        assert(actions@.take(i + 1) == actions@.take(i as int).push(actions@[i as int]));
        i = i + 1;
    }
    assert(actions@.take(actions.len() as int) == actions@);
    copy
}

/// The views of a list of recorded rounds.
pub open spec fn sar_views(sars: Seq<SAR>) -> Seq<SarView> {
    sars.map_values(|sar: SAR| sar@)
}

/// A copy of a list of recorded rounds.
pub fn copy_history(sars: &Vec<SAR>) -> (copy: Vec<SAR>)
    ensures
        sar_views(copy@) == sar_views(sars@),
        copy@.len() == sars@.len(),
        forall|k: int| 0 <= k < sars@.len() ==> (#[trigger] copy@[k])@ == sars@[k]@,
{
    let mut copy: Vec<SAR> = Vec::new();
    let mut i: usize = 0;
    while i < sars.len()
        invariant
            i <= sars.len(),
            copy@.len() == i,
            forall|k: int| 0 <= k < i ==> (#[trigger] copy@[k])@ == sars@[k]@,
        decreases sars.len() - i,
    {
        copy.push(sars[i].clone());
        i = i + 1;
    }
    assert(sar_views(copy@) =~= sar_views(sars@));
    copy
}

/// What the record of a match is, whatever arrays hold it.
pub struct ReplayView {
    pub sars: Seq<SarView>,
    pub agent_ids: (i32, i32),
    pub p1_won: bool,
}

/// The record of one whole match: its rounds in order, the identifiers of the
/// two players, and whether the first player won.
#[derive(Debug)]
pub struct MatchReplay {
    pub sars: Vec<SAR>,
    pub agent_ids: (i32, i32),
    pub p1_won: bool,
}

impl View for MatchReplay {
    type V = ReplayView;

    open spec fn view(&self) -> ReplayView {
        ReplayView {
            sars: sar_views(self.sars@),
            agent_ids: self.agent_ids,
            p1_won: self.p1_won,
        }
    }
}

impl Clone for MatchReplay {
    fn clone(&self) -> (copy: MatchReplay)
        ensures
            copy@ == self@,
    {
        MatchReplay {
            sars: copy_history(&self.sars),
            agent_ids: self.agent_ids,
            p1_won: self.p1_won,
        }
    }
}

/// A copy of a list of match records.
pub fn copy_replays(replays: &Vec<MatchReplay>) -> (copy: Vec<MatchReplay>)
    ensures
        copy@.len() == replays@.len(),
        forall|k: int| 0 <= k < replays@.len() ==> (#[trigger] copy@[k])@ == replays@[k]@,
{
    let mut copy: Vec<MatchReplay> = Vec::new();
    let mut i: usize = 0;
    while i < replays.len()
        invariant
            i <= replays.len(),
            copy@.len() == i,
            forall|k: int| 0 <= k < i ==> (#[trigger] copy@[k])@ == replays@[k]@,
        decreases replays.len() - i,
    {
        copy.push(replays[i].clone());
        i = i + 1;
    }
    copy
}

impl GameState {
    /// Whether the state's invariant holds: a well-formed board with both
    /// players on it.
    pub fn is_well_formed(&self) -> (ok: bool)
        ensures
            ok == self@.wf(),
    {
        self.board.is_well_formed() && !GameState::outside_bounds(
            self.board.size,
            &self.player1.position,
        ) && !GameState::outside_bounds(self.board.size, &self.player2.position)
    }

    /// The cell `pos` lies off a board of `board_size` by `board_size` cells.
    pub fn outside_bounds(board_size: i8, pos: &Position) -> (outside: bool)
        ensures
            outside == !pos.within(board_size as int),
    {
        (pos.x < 0 || pos.x >= board_size) || (pos.y < 0 || pos.y >= board_size)
    }

    /// The actions that are legal for `player` on this board: doing nothing,
    /// and each move that stays on the board. No action is listed twice.
    pub fn get_valid_moves(&self, player: &Player) -> (moves: Vec<Action>)
        ensures
            moves@.no_duplicates(),
            forall|a: Action|
                moves@.contains(a) <==> legal(self.board.size as int, player.position, a),
    {
        let size: i16 = self.board.size as i16;
        let x: i16 = player.position.x as i16;
        let y: i16 = player.position.y as i16;
        let mut moves: Vec<Action> = Vec::new();
        if 0 <= x && x < size && 0 <= y - 1 && y - 1 < size {
            moves.push(Action::Move(Direction::Up));
        }
        let ghost after_up = moves@;
        if 0 <= x && x < size && 0 <= y + 1 && y + 1 < size {
            moves.push(Action::Move(Direction::Down));
        }
        let ghost after_down = moves@;
        if 0 <= x - 1 && x - 1 < size && 0 <= y && y < size {
            moves.push(Action::Move(Direction::Left));
        }
        let ghost after_left = moves@;
        if 0 <= x + 1 && x + 1 < size && 0 <= y && y < size {
            moves.push(Action::Move(Direction::Right));
        }
        let ghost after_right = moves@;
        moves.push(Action::DoNothing);
        proof {
            let size = self.board.size as int;
            let pos = player.position;
            assert forall|a: Action| moves@.contains(a) <==> legal(size, pos, a) by {
                if legal(size, pos, a) {
                    match a {
                        Action::Move(Direction::Up) => {
                            assert(after_up[0] == a);
                            assert(moves@[0] == a);
                        },
                        Action::Move(Direction::Down) => {
                            assert(after_down.last() == a);
                            assert(moves@[after_down.len() - 1] == a);
                        },
                        Action::Move(Direction::Left) => {
                            assert(after_left.last() == a);
                            assert(moves@[after_left.len() - 1] == a);
                        },
                        Action::Move(Direction::Right) => {
                            assert(after_right.last() == a);
                            assert(moves@[after_right.len() - 1] == a);
                        },
                        Action::DoNothing => {
                            assert(moves@.last() == a);
                        },
                    }
                }
            }
        }
        moves
    }
}

} // verus!
