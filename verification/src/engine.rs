//! The match engine: it applies one round of simultaneous actions at a time,
//! settles who moves and who collects, rewards the first player, and decides
//! when the match is over and who won it.
use vstd::prelude::*;
use crate::board::{weight, BoardState, BoardView};
use crate::fruit::{FruitCounts, FruitType};
use crate::player::Player;
use crate::position::{Action, Position};
use crate::state::{
    copy_history,
    legal,
    sar_views,
    GameState,
    GameView,
    PlayerWinner,
    SarView,
    WinState,
    SAR,
};
use crate::units::{HALF, STEP_COST, WHOLE, WIN_REWARD};

verus! {

/// The state of one match and the record of the rounds played so far.
#[derive(Debug)]
pub struct Engine {
    pub game_history: Vec<SAR>,
    pub current_state: GameState,
}

impl Clone for Engine {
    fn clone(&self) -> (copy: Engine)
        ensures
            copy.current_state@ == self.current_state@,
            sar_views(copy.game_history@) == sar_views(self.game_history@),
    {
        Engine {
            game_history: copy_history(&self.game_history),
            current_state: self.current_state.clone(),
        }
    }
}

/// Where a player that stands on `pos` ends up when it aims to do `action` on
/// a board of `size` by `size` cells: a move off the board is a stay.
pub open spec fn landing(size: int, pos: Position, action: Action) -> Position {
    let t = pos.target(action);
    if 0 <= t.0 < size && 0 <= t.1 < size {
        Position { x: t.0 as i8, y: t.1 as i8 }
    } else {
        pos
    }
}

/// A player collects what lies under it: a whole fruit, which leaves the board.
pub open spec fn picked_up(player: Player, board: BoardView) -> (Player, BoardView) {
    match board.fruit_at(player.position.x as int, player.position.y as int) {
        Some(fruit) => (
            player.gained(fruit, WHOLE),
            board.with_fruit(player.position.x as int, player.position.y as int, None),
        ),
        None => (player, board),
    }
}

/// In how many of the three kinds `mine` holds strictly more than `theirs`.
pub open spec fn kinds_led(mine: FruitCounts, theirs: FruitCounts) -> int {
    (if mine.apple > theirs.apple { 1int } else { 0int })
    + (if mine.banana > theirs.banana { 1int } else { 0int })
    + (if mine.orange > theirs.orange { 1int } else { 0int })
}

/// The winner by holdings: the first player if it leads in at least two
/// kinds, the second player in every other case.
pub open spec fn winner(first: FruitCounts, second: FruitCounts) -> PlayerWinner {
    if kinds_led(first, second) >= 2 {
        PlayerWinner::Player1
    } else {
        PlayerWinner::Player2
    }
}

/// Each player's reward relative to the other's.
pub open spec fn zero_sum(reward1: int, reward2: int) -> (int, int) {
    (reward1 - reward2, reward2 - reward1)
}

/// The two relative rewards of a round cancel.
pub proof fn lemma_zero_sum(reward1: int, reward2: int)
    ensures
        zero_sum(reward1, reward2).1 == -zero_sum(reward1, reward2).0,
        zero_sum(reward1, reward2).0 + zero_sum(reward1, reward2).1 == 0,
{
}

impl Player {
    /// The player can collect a whole fruit of any kind without overflow.
    pub open spec fn has_room(self) -> bool {
        &&& self.fruit_counts.apple + WHOLE <= u64::MAX
        &&& self.fruit_counts.banana + WHOLE <= u64::MAX
        &&& self.fruit_counts.orange + WHOLE <= u64::MAX
        &&& self.reward + WHOLE <= i64::MAX
    }
}

impl GameView {
    /// The state after both players act at once. Each aims at a cell; a cell
    /// off the board is replaced by the player's own. If both aim at the same
    /// cell, neither moves, and a fruit on that cell is split between them. If
    /// not, both move, and each collects what lies on its new cell.
    pub open spec fn resolved(self, actions: (Action, Action)) -> GameView {
        let size = self.board.size as int;
        let t1 = landing(size, self.player1.position, actions.0);
        let t2 = landing(size, self.player2.position, actions.1);
        if t1 == t2 {
            match self.board.fruit_at(t1.x as int, t1.y as int) {
                Some(fruit) => GameView {
                    player1: self.player1.gained(fruit, HALF),
                    player2: self.player2.gained(fruit, HALF),
                    board: self.board.with_fruit(t1.x as int, t1.y as int, None),
                    ..self
                },
                None => self,
            }
        } else {
            let first = picked_up(self.player1.at(t1), self.board);
            let second = picked_up(self.player2.at(t2), first.1);
            GameView { player1: first.0, player2: second.0, board: second.1, ..self }
        }
    }

    /// Whether the match is over, and who won: it is over once the board
    /// records no fruit of any kind.
    pub open spec fn verdict(self) -> WinState {
        if self.board.fruit_counts.all_zero() {
            WinState::Finished(winner(self.player1.fruit_counts, self.player2.fruit_counts))
        } else {
            WinState::InProgress
        }
    }

    /// What the first player is credited with at the end of a round, beyond
    /// what it collected: the prize or the forfeit of a finished match, or
    /// else the amount the caller named, or else the usual cost of a round.
    pub open spec fn closing_reward(status: WinState, reward_added: Option<i32>) -> int {
        match status {
            WinState::Finished(PlayerWinner::Player1) => WIN_REWARD as int,
            WinState::Finished(PlayerWinner::Player2) => -WIN_REWARD,
            WinState::InProgress => match reward_added {
                Some(amount) => amount as int,
                None => STEP_COST as int,
            },
        }
    }

    /// The state after one round played on a match in progress.
    pub open spec fn stepped(self, actions: (Action, Action), reward_added: Option<i32>) -> GameView {
        let moved = GameView {
            player1: self.player1.with_reward(0),
            player2: self.player2.with_reward(0),
            ..self
        }.resolved(actions);
        let status = moved.verdict();
        GameView {
            player1: moved.player1.with_reward(
                (moved.player1.reward + Self::closing_reward(status, reward_added)) as i64,
            ),
            round: (self.round + 1) as u32,
            match_status: status,
            ..moved
        }
    }

    /// The state after `round` is asked for: a round played on a finished
    /// match changes nothing.
    pub open spec fn after(self, round: Round) -> GameView {
        if self.match_status == WinState::InProgress {
            self.stepped(round.actions, round.reward_added)
        } else {
            self
        }
    }

    /// A round can be played without overflow: the round counter and both
    /// players' holdings have room.
    pub open spec fn steppable(self) -> bool {
        &&& self.round < u32::MAX
        &&& self.player1.with_reward(0).has_room()
        &&& self.player2.with_reward(0).has_room()
    }
}

/// What the players do in one round, and what the caller adds to the first
/// player's reward.
pub struct Round {
    pub actions: (Action, Action),
    pub reward_added: Option<i32>,
}

/// The state after `rounds` are played in order from `state`.
pub open spec fn played(state: GameView, rounds: Seq<Round>) -> GameView
    decreases rounds.len(),
{
    if rounds.len() == 0 {
        state
    } else {
        played(state, rounds.drop_last()).after(rounds.last())
    }
}

/// Letting both players act keeps the board's counts true to its cells and
/// both players on the board, and adds no fruit to the board.
pub proof fn lemma_resolved_keeps_invariant(state: GameView, actions: (Action, Action))
    requires
        state.wf(),
    ensures
        state.resolved(actions).wf(),
        state.resolved(actions).board.size == state.board.size,
        forall|kind: FruitType|
            #![trigger state.resolved(actions).board.remaining(kind)]
            state.resolved(actions).board.remaining(kind) <= state.board.remaining(kind),
{
    let size = state.board.size as int;
    let t1 = landing(size, state.player1.position, actions.0);
    let t2 = landing(size, state.player2.position, actions.1);
    assert forall|kind: FruitType|
        #![trigger state.resolved(actions).board.remaining(kind)]
        state.resolved(actions).wf() && state.resolved(actions).board.remaining(kind)
            <= state.board.remaining(kind) by {
        if t1 == t2 {
            state.board.lemma_with_fruit(t1.x as int, t1.y as int, None, kind);
        } else {
            state.board.lemma_with_fruit(t1.x as int, t1.y as int, None, kind);
            let first = picked_up(state.player1.at(t1), state.board);
            first.1.lemma_with_fruit(t2.x as int, t2.y as int, None, kind);
        }
    }
    assert(state.resolved(actions).board.remaining(FruitType::Apple) >= 0);
}

/// A round keeps the board's counts true to its cells and both players on the
/// board.
pub proof fn lemma_stepped_keeps_invariant(
    state: GameView,
    actions: (Action, Action),
    reward_added: Option<i32>,
)
    requires
        state.wf(),
    ensures
        state.stepped(actions, reward_added).wf(),
{
    let cleared = GameView {
        player1: state.player1.with_reward(0),
        player2: state.player2.with_reward(0),
        ..state
    };
    lemma_resolved_keeps_invariant(cleared, actions);
}

/// A round adds one to the round counter and at most one fruit to each
/// holding.
pub proof fn lemma_stepped_gains(
    state: GameView,
    actions: (Action, Action),
    reward_added: Option<i32>,
    fruit: FruitType,
)
    requires
        state.wf(),
        state.steppable(),
    ensures
        state.stepped(actions, reward_added).round == state.round + 1,
        state.stepped(actions, reward_added).player1.fruit_counts.of(fruit)
            <= state.player1.fruit_counts.of(fruit) + WHOLE,
        state.stepped(actions, reward_added).player2.fruit_counts.of(fruit)
            <= state.player2.fruit_counts.of(fruit) + WHOLE,
{
}

/// Neither player holds more of any kind than one fruit for each round played.
pub open spec fn within_rounds(player: Player, rounds: int) -> bool {
    &&& player.fruit_counts.apple <= WHOLE * rounds
    &&& player.fruit_counts.banana <= WHOLE * rounds
    &&& player.fruit_counts.orange <= WHOLE * rounds
}

/// Within `rounds` rounds a player that started with nothing holds at most
/// one fruit of each kind for each round; one more round keeps it so.
pub proof fn lemma_within_rounds_grows(
    state: GameView,
    actions: (Action, Action),
    reward_added: Option<i32>,
)
    requires
        state.wf(),
        state.round < u32::MAX,
        within_rounds(state.player1, state.round as int),
        within_rounds(state.player2, state.round as int),
    ensures
        state.steppable(),
        within_rounds(
            state.stepped(actions, reward_added).player1,
            state.stepped(actions, reward_added).round as int,
        ),
        within_rounds(
            state.stepped(actions, reward_added).player2,
            state.stepped(actions, reward_added).round as int,
        ),
{
    assert(WHOLE * (state.round as int) <= 1000 * 0xffff_ffff) by (nonlinear_arith)
        requires
            0 <= state.round <= 0xffff_ffff,
            WHOLE == 1000,
    ;
    lemma_stepped_gains(state, actions, reward_added, FruitType::Apple);
    lemma_stepped_gains(state, actions, reward_added, FruitType::Banana);
    lemma_stepped_gains(state, actions, reward_added, FruitType::Orange);
    assert(WHOLE * (state.round + 1) == WHOLE * (state.round as int) + WHOLE)
        by (nonlinear_arith);
}

/// From a first state in which the players hold nothing, any sequence of
/// fewer rounds than the round counter can count keeps the invariant, and
/// leaves a match that is still in progress with room for one more round: the
/// holdings never outgrow one fruit for each round played.
pub proof fn lemma_played_from_start(state: GameView, rounds: Seq<Round>)
    requires
        state.wf(),
        state.round == 0,
        within_rounds(state.player1, 0),
        within_rounds(state.player2, 0),
        rounds.len() < u32::MAX,
    ensures
        played(state, rounds).wf(),
        played(state, rounds).round <= rounds.len(),
        within_rounds(played(state, rounds).player1, played(state, rounds).round as int),
        within_rounds(played(state, rounds).player2, played(state, rounds).round as int),
        played(state, rounds).steppable(),
    decreases rounds.len(),
{
    if rounds.len() > 0 {
        let before = played(state, rounds.drop_last());
        lemma_played_from_start(state, rounds.drop_last());
        if before.match_status == WinState::InProgress {
            lemma_within_rounds_grows(before, rounds.last().actions, rounds.last().reward_added);
            lemma_stepped_keeps_invariant(
                before,
                rounds.last().actions,
                rounds.last().reward_added,
            );
        }
    }
    let end = played(state, rounds);
    assert(WHOLE * (end.round as int) <= 1000 * 0xffff_ffff) by (nonlinear_arith)
        requires
            0 <= end.round <= 0xffff_ffff,
            WHOLE == 1000,
    ;
}

/// After any sequence of rounds the board's counts are true to its cells and
/// both players stand on the board.
pub proof fn lemma_played_keeps_invariant(state: GameView, rounds: Seq<Round>)
    requires
        state.wf(),
    ensures
        played(state, rounds).wf(),
    decreases rounds.len(),
{
    if rounds.len() > 0 {
        lemma_played_keeps_invariant(state, rounds.drop_last());
        lemma_stepped_keeps_invariant(
            played(state, rounds.drop_last()),
            rounds.last().actions,
            rounds.last().reward_added,
        );
    }
}

/// Players that stand apart on empty cells still do after a round.
pub proof fn lemma_stepped_keeps_players_clear(
    state: GameView,
    actions: (Action, Action),
    reward_added: Option<i32>,
)
    requires
        state.wf(),
        state.players_apart(),
        state.players_on_empty_cells(),
    ensures
        state.stepped(actions, reward_added).players_apart(),
        state.stepped(actions, reward_added).players_on_empty_cells(),
{
}

/// A player alone on a cell with a fruit collects it whole: the cell is
/// cleared, the holding of that kind and the reward grow by one fruit, one
/// fruit less of that kind remains, and nothing else changes. On an empty cell
/// nothing changes at all.
pub proof fn lemma_lone_pickup(player: Player, board: BoardView, kind: FruitType)
    requires
        board.wf(),
        player.position.within(board.size as int),
        player.has_room(),
    ensures
        picked_up(player, board).1.wf(),
        picked_up(player, board).0.position == player.position,
        board.fruit_at(player.position.x as int, player.position.y as int) is None ==> picked_up(
            player,
            board,
        ) == (player, board),
        board.fruit_at(player.position.x as int, player.position.y as int) is Some ==> {
            let fruit = board.fruit_at(player.position.x as int, player.position.y as int)->0;
            let after = picked_up(player, board);
            &&& after.1.fruit_at(player.position.x as int, player.position.y as int) is None
            &&& after.0.reward == player.reward + WHOLE
            &&& after.0.fruit_counts.of(kind) == player.fruit_counts.of(kind) + if kind == fruit {
                WHOLE as int
            } else {
                0
            }
            &&& after.1.remaining(kind) + weight(Some(fruit), kind) == board.remaining(kind)
            &&& forall|x: int, y: int|
                0 <= x < board.size && 0 <= y < board.size && (x != player.position.x || y
                    != player.position.y) ==> after.1.fruit_at(x, y) == board.fruit_at(x, y)
        },
{
    board.lemma_with_fruit(player.position.x as int, player.position.y as int, None, kind);
}

/// Two players that aim at the same cell share the fruit on it: the cell is
/// cleared, each holding of that kind and each reward grow by half a fruit,
/// neither player moves, one fruit less of that kind remains, and nothing
/// else changes.
pub proof fn lemma_shared_fruit(state: GameView, actions: (Action, Action), kind: FruitType)
    requires
        state.wf(),
        state.player1.has_room(),
        state.player2.has_room(),
        landing(state.board.size as int, state.player1.position, actions.0) == landing(
            state.board.size as int,
            state.player2.position,
            actions.1,
        ),
        state.board.fruit_at(
            landing(state.board.size as int, state.player1.position, actions.0).x as int,
            landing(state.board.size as int, state.player1.position, actions.0).y as int,
        ) is Some,
    ensures
        ({
            let at = landing(state.board.size as int, state.player1.position, actions.0);
            let fruit = state.board.fruit_at(at.x as int, at.y as int)->0;
            let after = state.resolved(actions);
            &&& after.board.fruit_at(at.x as int, at.y as int) is None
            &&& after.player1.position == state.player1.position
            &&& after.player2.position == state.player2.position
            &&& after.player1.reward == state.player1.reward + HALF
            &&& after.player2.reward == state.player2.reward + HALF
            &&& after.player1.fruit_counts.of(kind) == state.player1.fruit_counts.of(kind)
                + if kind == fruit {
                HALF as int
            } else {
                0
            }
            &&& after.player2.fruit_counts.of(kind) == state.player2.fruit_counts.of(kind)
                + if kind == fruit {
                HALF as int
            } else {
                0
            }
            &&& after.board.remaining(kind) + weight(Some(fruit), kind) == state.board.remaining(
                kind,
            )
            &&& forall|x: int, y: int|
                0 <= x < state.board.size && 0 <= y < state.board.size && (x != at.x || y != at.y)
                    ==> after.board.fruit_at(x, y) == state.board.fruit_at(x, y)
        }),
{
    let at = landing(state.board.size as int, state.player1.position, actions.0);
    state.board.lemma_with_fruit(at.x as int, at.y as int, None, kind);
}

/// A move off the board counts as doing nothing: the player stays where it
/// is, and if its own cell is empty it collects nothing.
pub proof fn lemma_move_off_board_is_stay(state: GameView, action: Action, other: Action)
    requires
        state.wf(),
        !legal(state.board.size as int, state.player1.position, action),
    ensures
        state.resolved((action, other)) == state.resolved((Action::DoNothing, other)),
        state.resolved((action, other)).player1.position == state.player1.position,
        state.board.fruit_at(state.player1.position.x as int, state.player1.position.y as int)
            is None ==> state.resolved((action, other)).player1 == state.player1,
{
}

/// The same for the second player.
pub proof fn lemma_move_off_board_is_stay_second(state: GameView, other: Action, action: Action)
    requires
        state.wf(),
        !legal(state.board.size as int, state.player2.position, action),
    ensures
        state.resolved((other, action)) == state.resolved((other, Action::DoNothing)),
        state.resolved((other, action)).player2.position == state.player2.position,
        state.board.fruit_at(state.player2.position.x as int, state.player2.position.y as int)
            is None ==> state.resolved((other, action)).player2 == state.player2,
{
}

/// A match is finished after a round exactly if the board then records no
/// fruit; and on a board without fruit, the next round finishes the match.
pub proof fn lemma_no_fruit_ends_match(
    state: GameView,
    actions: (Action, Action),
    reward_added: Option<i32>,
)
    requires
        state.wf(),
    ensures
        state.stepped(actions, reward_added).match_status is Finished <==> state.stepped(
            actions,
            reward_added,
        ).board.fruit_counts.all_zero(),
        state.board.fruit_counts.all_zero() ==> state.stepped(
            actions,
            reward_added,
        ).match_status is Finished,
{
    if state.board.fruit_counts.all_zero() {
        state.board.lemma_all_zero_is_bare();
    }
}

/// Once a match is finished, no sequence of rounds changes its state.
pub proof fn lemma_finished_is_final(state: GameView, rounds: Seq<Round>)
    requires
        state.match_status is Finished,
    ensures
        played(state, rounds) == state,
    decreases rounds.len(),
{
    if rounds.len() > 0 {
        lemma_finished_is_final(state, rounds.drop_last());
    }
}

/// The record of the round that leads from `before` to `after` is `sar`.
pub open spec fn records(sar: SarView, before: GameView, action: Action, after: GameView) -> bool {
    &&& sar.gamestate == before
    &&& sar.actions == action
    &&& sar.action_mask.no_duplicates()
    &&& forall|a: Action|
        sar.action_mask.contains(a) <==> legal(
            before.board.size as int,
            before.player1.position,
            a,
        )
    &&& sar.reward == zero_sum(after.player1.reward as int, after.player2.reward as int).0
    &&& sar.terminal == (after.match_status != WinState::InProgress)
}

impl Engine {
    /// Whether a round can be asked for: the state's invariant holds, and if
    /// the match is in progress, the round counter and the holdings have room
    /// for one more round.
    pub fn can_step(&self) -> (ok: bool)
        ensures
            ok == (self.current_state@.wf() && (self.current_state.match_status
                == WinState::InProgress ==> self.current_state@.steppable())),
    {
        if !self.current_state.is_well_formed() {
            return false;
        }
        if self.current_state.match_status != WinState::InProgress {
            return true;
        }
        let limit: u64 = u64::MAX - WHOLE as u64;
        self.current_state.round < u32::MAX
            && self.current_state.player1.fruit_counts.max() <= limit
            && self.current_state.player2.fruit_counts.max() <= limit
    }

    /// Plays one round. On a finished match nothing happens and the final
    /// status is returned again. On a match in progress both players act, the
    /// round counter grows by one, the first player is rewarded, the round is
    /// recorded with the state as it was before, and the new status is
    /// returned.
    pub fn apply_move(&mut self, actions: (Action, Action), reward_added: Option<i32>) -> (status:
        WinState)
        requires
            old(self).current_state@.wf(),
            old(self).current_state.match_status == WinState::InProgress
                ==> old(self).current_state@.steppable(),
        ensures
            status == final(self).current_state.match_status,
            final(self).current_state@ == old(self).current_state@.after(
                (Round { actions, reward_added }),
            ),
            final(self).current_state@.wf(),
            old(self).current_state.match_status != WinState::InProgress
                ==> final(self).game_history@ == old(self).game_history@,
            old(self).current_state.match_status == WinState::InProgress ==> {
                &&& final(self).game_history@.len() == old(self).game_history@.len() + 1
                &&& final(self).game_history@.drop_last() == old(self).game_history@
                &&& records(
                    final(self).game_history@.last()@,
                    old(self).current_state@,
                    actions.0,
                    final(self).current_state@,
                )
            },
    {
        if self.current_state.match_status != WinState::InProgress {
            return self.current_state.match_status;
        }
        let state = self.current_state.clone();
        let action_mask = self.current_state.get_valid_moves(&self.current_state.player1);

        self.current_state.player1.reward = 0;
        self.current_state.player2.reward = 0;

        self.resolve_actions(actions);
        self.current_state.round = self.current_state.round + 1;

        let win_state = self.check_gameover();
        match win_state {
            WinState::Finished(winner) => {
                match winner {
                    PlayerWinner::Player1 => {
                        self.current_state.player1.reward = self.current_state.player1.reward
                            + WIN_REWARD;
                    },
                    PlayerWinner::Player2 => {
                        self.current_state.player1.reward = self.current_state.player1.reward
                            - WIN_REWARD;
                    },
                }
            },
            WinState::InProgress => {
                let reward: i64 = match reward_added {
                    Some(amount) => amount as i64,
                    None => STEP_COST as i64,
                };
                self.current_state.player1.reward = self.current_state.player1.reward + reward;
            },
        }

        let new_rewards = Engine::make_reward_zerosum(
            self.current_state.player1.reward,
            self.current_state.player2.reward,
        );
        let sar = SAR {
            reward: new_rewards.0,
            actions: actions.0,
            gamestate: state,
            action_mask,
            terminal: win_state != WinState::InProgress,
        };
        self.game_history.push(sar);

        self.current_state.match_status = win_state;
        win_state
    }

    /// Whether the match is over as the board stands, and who won.
    pub fn check_gameover(&self) -> (status: WinState)
        ensures
            status == self.current_state@.verdict(),
    {
        if self.current_state.board.fruit_counts.max() == 0 {
            WinState::Finished(self.get_winner())
        } else {
            WinState::InProgress
        }
    }

    /// The winner by holdings as they stand.
    pub fn get_winner(&self) -> (who: PlayerWinner)
        ensures
            who == winner(
                self.current_state.player1.fruit_counts,
                self.current_state.player2.fruit_counts,
            ),
    {
        let player1_fruit = &self.current_state.player1.fruit_counts;
        let player2_fruit = &self.current_state.player2.fruit_counts;

        let mut apple_gt: u8 = 0;
        let mut banana_gt: u8 = 0;
        let mut orange_gt: u8 = 0;

        if player1_fruit.get(FruitType::Apple) > player2_fruit.get(FruitType::Apple) {
            apple_gt = 1;
        }
        if player1_fruit.get(FruitType::Banana) > player2_fruit.get(FruitType::Banana) {
            banana_gt = 1;
        }
        if player1_fruit.get(FruitType::Orange) > player2_fruit.get(FruitType::Orange) {
            orange_gt = 1;
        }
        let player1_wins: u8 = apple_gt + banana_gt + orange_gt;
        match player1_wins {
            2 | 3 => PlayerWinner::Player1,
            _ => PlayerWinner::Player2,
        }
    }

    /// Each reward relative to the other.
    pub fn make_reward_zerosum(reward1: i64, reward2: i64) -> (rewards: (i64, i64))
        requires
            i64::MIN <= reward1 - reward2 <= i64::MAX,
            i64::MIN <= reward2 - reward1 <= i64::MAX,
        ensures
            rewards.0 == zero_sum(reward1 as int, reward2 as int).0,
            rewards.1 == zero_sum(reward1 as int, reward2 as int).1,
    {
        let reward1_new: i64 = reward1 - reward2;
        let reward2_new: i64 = reward2 - reward1;
        (reward1_new, reward2_new)
    }

    /// Lets both players act at once on the current state.
    pub fn resolve_actions(&mut self, actions: (Action, Action))
        requires
            old(self).current_state@.wf(),
            old(self).current_state.player1.has_room(),
            old(self).current_state.player2.has_room(),
        ensures
            final(self).current_state@ == old(self).current_state@.resolved(actions),
            final(self).current_state@.wf(),
            final(self).game_history == old(self).game_history,
    {
        let mut p1_target = Engine::resolve_move(actions.0, &self.current_state.player1.position);
        let mut p2_target = Engine::resolve_move(actions.1, &self.current_state.player2.position);

        if GameState::outside_bounds(self.current_state.board.size, &p1_target) {
            p1_target = self.current_state.player1.position;
        }
        if GameState::outside_bounds(self.current_state.board.size, &p2_target) {
            p2_target = self.current_state.player2.position;
        }

        if p1_target == p2_target {
            let board_fruit = self.current_state.board.get_fruit(
                p1_target.x as usize,
                p1_target.y as usize,
            );
            match board_fruit {
                Some(fruit) => {
                    self.current_state.board.set_fruit(
                        p1_target.x as usize,
                        p1_target.y as usize,
                        None,
                    );
                    self.current_state.player1.increment_fruit(fruit, HALF);
                    self.current_state.player2.increment_fruit(fruit, HALF);
                },
                None => {},
            }
        } else {
            self.current_state.player1.move_player(p1_target);
            Engine::pickup_fruit(&mut self.current_state.player1, &mut self.current_state.board);

            self.current_state.player2.move_player(p2_target);
            Engine::pickup_fruit(&mut self.current_state.player2, &mut self.current_state.board);
        }
    }

    /// Lets `player` collect what lies under it on `board`.
    pub fn pickup_fruit(player: &mut Player, board: &mut BoardState)
        requires
            old(board)@.wf(),
            old(player).position.within(old(board).size as int),
            old(player).has_room(),
        ensures
            (*final(player), final(board)@) == picked_up(*old(player), old(board)@),
            final(board)@.wf(),
    {
        let x: usize = player.position.x as usize;
        let y: usize = player.position.y as usize;
        if let Some(fruit) = board.get_fruit(x, y) {
            board.set_fruit(x, y, None);
            player.increment_fruit(fruit, WHOLE);
        }
    }

    /// The cell that `action` aims at from `pos`, on or off the board.
    pub fn resolve_move(action: Action, pos: &Position) -> (target: Position)
        requires
            i8::MIN < pos.x < i8::MAX,
            i8::MIN < pos.y < i8::MAX,
        ensures
            (target.x as int, target.y as int) == pos.target(action),
    {
        match action {
            Action::DoNothing => *pos,
            Action::Move(dir) => dir.as_pos() + *pos,
        }
    }
}

} // verus!
