//! The driver: it plays whole matches between two decision sources and keeps
//! a record of each.
use vstd::prelude::*;
use crate::ai::{random_policy, AiPlayer, RandomPlayer};
use crate::config::{EngineConfig, FruitMix};
use crate::engine::{lemma_within_rounds_grows, records, within_rounds, Engine};
use crate::manager::RolloutConfig;
use crate::player::Player;
use crate::position::Action;
use crate::random::{choose_from, draw_seed, thread_generator};
use crate::state::{
    GameView,
    copy_history,
    copy_replays,
    sar_views,
    MatchReplay,
    PlayerWinner,
    ReplayView,
    SarView,
    WinState,
    SAR,
};
use crate::units::STEP_COST;

verus! {

/// The first player's identifier and the identifiers its opponents are drawn
/// from.
pub struct MatchmakingPool {
    pub target_id: i32,
    pub opponent_ids: Vec<i32>,
    pub rng: rand::rngs::ThreadRng,
}

impl MatchmakingPool {
    /// A pool for the first player `target` and the opponents `opponents`,
    /// which draws from the thread's generator.
    pub fn new(target: i32, opponents: Vec<i32>) -> (pool: MatchmakingPool)
        ensures
            pool.target_id == target,
            pool.opponent_ids@ == opponents@,
    {
        MatchmakingPool { target_id: target, opponent_ids: opponents, rng: thread_generator() }
    }

    /// The first player's identifier and that of an opponent drawn from the
    /// pool. The pool keeps all its identifiers.
    pub fn sample_pair(&mut self) -> (pair: (i32, i32))
        requires
            old(self).opponent_ids@.len() > 0,
        ensures
            pair.0 == old(self).target_id,
            old(self).opponent_ids@.contains(pair.1),
            final(self).target_id == old(self).target_id,
            final(self).opponent_ids == old(self).opponent_ids,
    {
        let opponent = choose_from(&self.opponent_ids, &mut self.rng);
        (self.target_id, opponent.unwrap())
    }
}

/// What a driver holds: its configuration, the engine of the match being
/// played, the pool it draws opponents from, and the records of the matches
/// played so far.
pub struct RolloutWorker {
    pub conf: RolloutConfig,
    pub engine: Engine,
    pub matchmaking: MatchmakingPool,
    pub match_history: Vec<MatchReplay>,
}

/// The identifier under which a match against a player that moves at random
/// is recorded; no pool holds it.
pub const RANDOM_PLAYER_ID: i32 = 69420;

/// The policies of the decision sources in the two seats of a match.
pub struct Seats {
    pub first: spec_fn(GameView, Action) -> bool,
    pub second: spec_fn(GameView, Action) -> bool,
}

/// The policies of the decision sources `sources`, in order.
pub open spec fn policies<O: AiPlayer>(sources: Seq<O>) -> Seq<spec_fn(GameView, Action) -> bool> {
    sources.map_values(|source: O| source.policy())
}

/// The least index from `k` on at which `ids` holds `id`, or the length of
/// `ids` if there is none.
pub open spec fn seat_from(ids: Seq<i32>, id: i32, k: int) -> int
    decreases ids.len() - k,
{
    if k < 0 || k >= ids.len() {
        k
    } else if ids[k] == id {
        k
    } else {
        seat_from(ids, id, k + 1)
    }
}

/// The seat of the identifier `id` in the pool `ids`: the first index at
/// which the pool holds it. The decision source of an identifier is the one
/// at its seat.
pub open spec fn seat_of(ids: Seq<i32>, id: i32) -> int {
    seat_from(ids, id, 0)
}

/// From `k` on, the seat is the first index that holds the identifier.
pub proof fn lemma_seat_from(ids: Seq<i32>, id: i32, k: int)
    requires
        0 <= k <= ids.len(),
    ensures
        k <= seat_from(ids, id, k) <= ids.len(),
        seat_from(ids, id, k) < ids.len() ==> ids[seat_from(ids, id, k)] == id,
        forall|j: int| k <= j < seat_from(ids, id, k) ==> ids[j] != id,
    decreases ids.len() - k,
{
    if k < ids.len() && ids[k] != id {
        lemma_seat_from(ids, id, k + 1);
    }
}

/// The seat of an identifier that a pool holds is the first index at which
/// the pool holds it.
pub proof fn lemma_seat_of(ids: Seq<i32>, id: i32)
    requires
        ids.contains(id),
    ensures
        0 <= seat_of(ids, id) < ids.len(),
        ids[seat_of(ids, id)] == id,
        forall|j: int| 0 <= j < seat_of(ids, id) ==> ids[j] != id,
{
    lemma_seat_from(ids, id, 0);
}

/// The round recorded in `sar`, answered by the second player with `reply`,
/// gives the state `next`: the recorded action is one that the policy of the
/// first seat admits, the reply one that the policy of the second seat
/// admits, and `sar` records the round truly.
pub open spec fn round_gives(sar: SarView, reply: Action, next: GameView, seats: Seats) -> bool {
    &&& (seats.first)(sar.gamestate, sar.actions)
    &&& (seats.second)(sar.gamestate, reply)
    &&& next == sar.gamestate.stepped((sar.actions, reply), Some(STEP_COST))
    &&& records(sar, sar.gamestate, sar.actions, next)
}

/// The round recorded in `sar` leads to the state `next` by some reply of the
/// second seat.
pub open spec fn leads_to(sar: SarView, next: GameView, seats: Seats) -> bool {
    exists|reply: Action| round_gives(sar, reply, next, seats)
}

/// The state that the `i`-th of the rounds `sars` leads to: the state of the
/// next round, or `end` after the last.
#[verifier::opaque]
pub open spec fn state_after(sars: Seq<SarView>, end: GameView, i: int) -> GameView {
    if i + 1 < sars.len() {
        sars[i + 1].gamestate
    } else {
        end
    }
}

/// The rounds `sars` are a match played from `start` to `end` by the sources
/// in `seats`: the first was recorded at `start`, the `i`-th at round `i` of a
/// match in progress, and each leads to the state of the next, the last to
/// `end`.
pub open spec fn trajectory(
    sars: Seq<SarView>,
    start: GameView,
    end: GameView,
    seats: Seats,
) -> bool {
    &&& sars.len() == 0 ==> start == end
    &&& sars.len() > 0 ==> sars[0].gamestate == start
    &&& forall|i: int|
        0 <= i < sars.len() ==> {
            &&& (#[trigger] sars[i]).gamestate.round == i
            &&& sars[i].gamestate.match_status == WinState::InProgress
            &&& sars[i].gamestate.wf()
            &&& leads_to(sars[i], state_after(sars, end, i), seats)
        }
}

/// `replay` is the record of a match that the sources in `seats` played from
/// `start` to `end` under a cap of `max_rounds` rounds: it holds every round
/// of the match, at least one; the match is finished, or was cut short when
/// the cap was reached, but not before its first round; and the first player
/// is recorded as the winner exactly if the match ended in its favour.
pub open spec fn sound_run(
    replay: ReplayView,
    start: GameView,
    end: GameView,
    max_rounds: int,
    seats: Seats,
) -> bool {
    &&& replay.sars.len() > 0
    &&& replay.sars.len() == end.round
    &&& trajectory(replay.sars, start, end, seats)
    &&& replay.p1_won == (end.match_status == WinState::Finished(PlayerWinner::Player1))
    &&& end.round <= max_rounds || end.round == 1
    &&& end.match_status == WinState::InProgress ==> end.round >= max_rounds
}

/// `state` is the first state of a match on a board built from `conf` with
/// some seed and the shares `mix`, and a sound one.
#[verifier::opaque]
pub open spec fn fresh_start(conf: EngineConfig, mix: FruitMix, state: GameView) -> bool {
    &&& conf.sound_start(mix, state)
    &&& exists|seed: u64| state == (#[trigger] conf.reseeded(seed)).start(mix)
}

/// `replay` is a sound record of a match on a board built from `conf` with
/// some seed and the shares `mix`, under a cap of `max_rounds` rounds, between
/// `target`, whose source has the policy `first`, and one of the pool `pool`,
/// whose source is the one at its seat among `sources`.
pub open spec fn sound_replay(
    replay: ReplayView,
    target: i32,
    pool: Seq<i32>,
    conf: EngineConfig,
    mix: FruitMix,
    max_rounds: int,
    first: spec_fn(GameView, Action) -> bool,
    sources: Seq<spec_fn(GameView, Action) -> bool>,
) -> bool {
    &&& replay.agent_ids.0 == target
    &&& pool.contains(replay.agent_ids.1)
    &&& exists|start: GameView, end: GameView|
        fresh_start(conf, mix, start) && #[trigger] sound_run(
            replay,
            start,
            end,
            max_rounds,
            (Seats { first, second: sources[seat_of(pool, replay.agent_ids.1)] }),
        )
}

/// A match played from `start` to `state` and one more round, recorded in
/// `sar`, make a match played from `start` to the state that the round gives.
pub proof fn lemma_trajectory_grows(
    sars: Seq<SarView>,
    sar: SarView,
    start: GameView,
    state: GameView,
    reply: Action,
    next: GameView,
    seats: Seats,
)
    requires
        trajectory(sars, start, state, seats),
        state.round == sars.len(),
        state.match_status == WinState::InProgress,
        state.wf(),
        sar.gamestate == state,
        round_gives(sar, reply, next, seats),
    ensures
        trajectory(sars.push(sar), start, next, seats),
{
    reveal(state_after);
    let grown = sars.push(sar);
    assert forall|i: int| 0 <= i < grown.len() implies {
        &&& (#[trigger] grown[i]).gamestate.round == i
        &&& grown[i].gamestate.match_status == WinState::InProgress
        &&& grown[i].gamestate.wf()
        &&& leads_to(grown[i], state_after(grown, next, i), seats)
    } by {
        if i < sars.len() {
            assert(grown[i] == sars[i]);
            assert(state_after(grown, next, i) == state_after(sars, state, i));
        }
    }
}

/// In a match played from its first round on, no round but the last ends the
/// match, and the last does exactly if the match is finished at the end.
pub proof fn lemma_only_the_last_round_ends(
    sars: Seq<SarView>,
    start: GameView,
    end: GameView,
    seats: Seats,
)
    requires
        trajectory(sars, start, end, seats),
    ensures
        forall|i: int| 0 <= i < sars.len() - 1 ==> !(#[trigger] sars[i]).terminal,
        sars.len() > 0 ==> sars.last().terminal == (end.match_status != WinState::InProgress),
{
    reveal(state_after);
    assert forall|i: int| 0 <= i < sars.len() implies (#[trigger] sars[i]).terminal == (state_after(
        sars,
        end,
        i,
    ).match_status != WinState::InProgress) by {
        assert(leads_to(sars[i], state_after(sars, end, i), seats));
    }
    assert forall|i: int| 0 <= i < sars.len() - 1 implies !(#[trigger] sars[i]).terminal by {
        assert(sars[i + 1].gamestate.match_status == WinState::InProgress);
    }
}

/// In a match played by the sources in `seats`, every recorded action is one
/// that the policy of the first seat admits for the state it was recorded at.
pub proof fn lemma_recorded_actions_are_the_sources(
    sars: Seq<SarView>,
    start: GameView,
    end: GameView,
    seats: Seats,
    i: int,
)
    requires
        trajectory(sars, start, end, seats),
        0 <= i < sars.len(),
    ensures
        (seats.first)(sars[i].gamestate, sars[i].actions),
        exists|reply: Action| (seats.second)(sars[i].gamestate, reply) && #[trigger] round_gives(
            sars[i],
            reply,
            state_after(sars, end, i),
            seats,
        ),
{
    assert(leads_to(sars[i], state_after(sars, end, i), seats));
}

/// The first index at which `ids` holds `id`.
pub fn find_seat(ids: &Vec<i32>, id: i32) -> (seat: usize)
    requires
        ids@.contains(id),
    ensures
        seat == seat_of(ids@, id),
        seat < ids@.len(),
        ids@[seat as int] == id,
{
    proof {
        lemma_seat_of(ids@, id);
    }
    let mut seat: usize = 0;
    while ids[seat] != id
        invariant
            0 <= seat <= seat_of(ids@, id) < ids.len(),
            seat_from(ids@, id, seat as int) == seat_of(ids@, id),
            ids@[seat_of(ids@, id)] == id,
        decreases ids@.len() - seat,
    {
        proof {
            assert(seat_from(ids@, id, seat as int) == seat_from(ids@, id, seat + 1));
            lemma_seat_from(ids@, id, seat + 1);
        }
        seat = seat + 1;
    }
    seat
}

impl RolloutWorker {
    /// The driver can play a match on a board of shares `mix`.
    pub open spec fn ready(self, mix: FruitMix) -> bool {
        &&& self.conf.engine_config.admits(mix)
        &&& self.matchmaking.opponent_ids@.len() > 0
    }

    /// The driver has played and recorded one match on a board of shares `mix`
    /// since it was `before`: configuration and pool are as they were, the
    /// records are those of `before` and one more, and the new record, under
    /// the identifiers `ids`, is that of the match that the sources in `seats`
    /// have played on the engine from a new board to its current state.
    pub open spec fn recorded_one_more(
        self,
        before: RolloutWorker,
        mix: FruitMix,
        ids: (i32, i32),
        seats: Seats,
    ) -> bool {
        &&& self.conf == before.conf
        &&& self.matchmaking.target_id == before.matchmaking.target_id
        &&& self.matchmaking.opponent_ids == before.matchmaking.opponent_ids
        &&& self.match_history@.len() == before.match_history@.len() + 1
        &&& self.match_history@.drop_last() == before.match_history@
        &&& self.match_history@.last().agent_ids == ids
        &&& exists|start: GameView|
            fresh_start(before.conf.engine_config, mix, start) && #[trigger] sound_run(
                self.match_history@.last()@,
                start,
                self.engine.current_state@,
                before.conf.max_rounds as int,
                seats,
            )
    }

    /// The driver has played and recorded one match against an opponent of its
    /// pool since it was `before`: the new record is under the first player's
    /// identifier and one of the pool, and the match was played by the source
    /// of policy `first` in the first seat and, in the second, by the source
    /// that stands among `sources` at the seat of the recorded opponent.
    pub open spec fn played_one_more(
        self,
        before: RolloutWorker,
        mix: FruitMix,
        first: spec_fn(GameView, Action) -> bool,
        sources: Seq<spec_fn(GameView, Action) -> bool>,
    ) -> bool {
        let ids = self.match_history@.last().agent_ids;
        &&& ids.0 == before.matchmaking.target_id
        &&& before.matchmaking.opponent_ids@.contains(ids.1)
        &&& self.recorded_one_more(
            before,
            mix,
            ids,
            (Seats { first, second: sources[seat_of(before.matchmaking.opponent_ids@, ids.1)] }),
        )
    }

    /// The driver has played until its quota was met since it was `before`,
    /// the `i`-th new match on a board of shares `mixes[i]`: configuration and
    /// pool are as they were, the records are those of `before` followed by
    /// sound records of the new matches, and there are as many as the
    /// configuration asks for, or as many as before if that was more.
    pub open spec fn filled_quota(
        self,
        before: RolloutWorker,
        mixes: Seq<FruitMix>,
        first: spec_fn(GameView, Action) -> bool,
        sources: Seq<spec_fn(GameView, Action) -> bool>,
    ) -> bool {
        let held = before.match_history@.len();
        &&& self.conf == before.conf
        &&& self.matchmaking.target_id == before.matchmaking.target_id
        &&& self.matchmaking.opponent_ids == before.matchmaking.opponent_ids
        &&& self.match_history@.len() == if held >= before.conf.max_matches {
            held
        } else {
            before.conf.max_matches as nat
        }
        &&& self.match_history@.take(held as int) == before.match_history@
        &&& forall|k: int|
            held <= k < self.match_history@.len() ==> sound_replay(
                (#[trigger] self.match_history@[k])@,
                before.matchmaking.target_id,
                before.matchmaking.opponent_ids@,
                before.conf.engine_config,
                mixes[k - held],
                before.conf.max_rounds as int,
                first,
                sources,
            )
    }

    /// A match that the driver has just played against an opponent of its pool
    /// is soundly recorded.
    pub proof fn lemma_played_one_more_is_sound(
        self,
        before: RolloutWorker,
        mix: FruitMix,
        first: spec_fn(GameView, Action) -> bool,
        sources: Seq<spec_fn(GameView, Action) -> bool>,
    )
        requires
            self.played_one_more(before, mix, first, sources),
        ensures
            sound_replay(
                self.match_history@.last()@,
                before.matchmaking.target_id,
                before.matchmaking.opponent_ids@,
                before.conf.engine_config,
                mix,
                before.conf.max_rounds as int,
                first,
                sources,
            ),
    {
        let ids = self.match_history@.last().agent_ids;
        let seats = Seats { first, second: sources[seat_of(before.matchmaking.opponent_ids@, ids.1)] };
        let start = choose|start: GameView|
            fresh_start(before.conf.engine_config, mix, start) && #[trigger] sound_run(
                self.match_history@.last()@,
                start,
                self.engine.current_state@,
                before.conf.max_rounds as int,
                seats,
            );
        assert(sound_run(
            self.match_history@.last()@,
            start,
            self.engine.current_state@,
            before.conf.max_rounds as int,
            seats,
        ));
    }

    /// A driver with no match recorded, whose engine stands at the first state
    /// of a match on a board of shares `mix`.
    pub fn new(conf: RolloutConfig, mix: FruitMix) -> (worker: RolloutWorker)
        requires
            conf.engine_config.admits(mix),
        ensures
            worker.conf == conf,
            worker.matchmaking.target_id == conf.agent_ids.0,
            worker.matchmaking.opponent_ids@ == conf.agent_ids.1@,
            worker.match_history@.len() == 0,
            worker.engine.game_history@.len() == 0,
            worker.engine.current_state@ == conf.engine_config.start(mix),
            conf.engine_config.sound_start(mix, worker.engine.current_state@),
    {
        let engine = Engine::new(conf.engine_config, mix);
        RolloutWorker {
            matchmaking: MatchmakingPool::new(conf.agent_ids.0, conf.agent_ids.1.clone()),
            conf,
            engine,
            match_history: Vec::new(),
        }
    }

    /// Whether the driver can play a match on a board of shares `mix`.
    pub fn is_ready(&self, mix: &FruitMix) -> (ready: bool)
        ensures
            ready == self.ready(*mix),
    {
        self.conf.engine_config.check(mix).is_ok() && self.matchmaking.opponent_ids.len() > 0
    }

    /// Whether as many matches are recorded as the configuration asks for.
    pub fn quota_met(&self) -> (met: bool)
        ensures
            met == (self.match_history@.len() >= self.conf.max_matches),
    {
        self.match_history.len() >= self.conf.max_matches as usize
    }

    /// Replaces the engine by one at the first state of a new match, on a
    /// board built as configured but from a seed drawn afresh.
    pub fn reset(&mut self, mix: FruitMix)
        requires
            old(self).conf.engine_config.admits(mix),
        ensures
            final(self).conf == old(self).conf,
            final(self).match_history == old(self).match_history,
            final(self).matchmaking.target_id == old(self).matchmaking.target_id,
            final(self).matchmaking.opponent_ids == old(self).matchmaking.opponent_ids,
            final(self).engine.game_history@.len() == 0,
            final(self).engine.current_state@.wf(),
            fresh_start(old(self).conf.engine_config, mix, final(self).engine.current_state@),
            final(self).engine.current_state.round == 0,
            final(self).engine.current_state.match_status == WinState::InProgress,
            final(self).engine.current_state.player1 == Player::fresh(
                final(self).engine.current_state.player1.position,
            ),
            final(self).engine.current_state.player2 == Player::fresh(
                final(self).engine.current_state.player2.position,
            ),
    {
        let seed: u64 = draw_seed(&mut self.matchmaking.rng);
        let conf = self.conf.engine_config.with_seed(seed);
        self.engine = Engine::new(conf, mix);
        proof {
            reveal(fresh_start);
            assert(self.engine.current_state@ == old(self).conf.engine_config.reseeded(
                seed,
            ).start(mix));
        }
    }

    /// Plays one match between `primary` in the first seat and `opponent` in
    /// the second, on a new board of shares `mix`, and records it under the
    /// identifiers `agent_ids`. The match ends when it is finished, or when as
    /// many rounds are played as the configuration allows; at least one round
    /// is played. In every round each source is asked once for the state of
    /// that round, and what it answers is played.
    pub fn play_match<P: AiPlayer, O: AiPlayer>(
        &mut self,
        primary: &mut P,
        opponent: &mut O,
        agent_ids: (i32, i32),
        mix: FruitMix,
    )
        requires
            old(self).conf.engine_config.admits(mix),
        ensures
            final(self).recorded_one_more(
                *old(self),
                mix,
                agent_ids,
                (Seats { first: old(primary).policy(), second: old(opponent).policy() }),
            ),
            final(primary).policy() == old(primary).policy(),
            final(opponent).policy() == old(opponent).policy(),
    {
        let ghost seats = Seats { first: primary.policy(), second: opponent.policy() };
        self.reset(mix);
        let ghost start = self.engine.current_state@;
        while self.engine.current_state.match_status == WinState::InProgress && (
            self.engine.current_state.round == 0 || self.engine.current_state.round
                < self.conf.max_rounds)
            invariant
                self.conf == old(self).conf,
                self.match_history == old(self).match_history,
                self.matchmaking.target_id == old(self).matchmaking.target_id,
                self.matchmaking.opponent_ids == old(self).matchmaking.opponent_ids,
                primary.policy() == seats.first,
                opponent.policy() == seats.second,
                self.engine.current_state@.wf(),
                self.engine.game_history@.len() == self.engine.current_state.round,
                trajectory(
                    sar_views(self.engine.game_history@),
                    start,
                    self.engine.current_state@,
                    seats,
                ),
                self.engine.current_state.round <= self.conf.max_rounds
                    || self.engine.current_state.round == 1,
                self.engine.current_state.round == 0
                    ==> self.engine.current_state.match_status == WinState::InProgress,
                within_rounds(
                    self.engine.current_state.player1,
                    self.engine.current_state.round as int,
                ),
                within_rounds(
                    self.engine.current_state.player2,
                    self.engine.current_state.round as int,
                ),
            decreases u32::MAX - self.engine.current_state.round,
        {
            let ghost before = self.engine.game_history@;
            let ghost state = self.engine.current_state@;
            let primary_action = primary.get_move(&self.engine.current_state);
            let opponent_action = opponent.get_move(&self.engine.current_state);
            proof {
                lemma_within_rounds_grows(
                    state,
                    (primary_action, opponent_action),
                    Some(STEP_COST),
                );
            }
            self.engine.apply_move((primary_action, opponent_action), Some(STEP_COST));
            proof {
                let after = self.engine.game_history@;
                assert(after.drop_last() == before);
                assert(sar_views(after) =~= sar_views(before).push(after.last()@)) by {
                    assert forall|i: int| 0 <= i < before.len() implies sar_views(after)[i]
                        == sar_views(before)[i] by {
                        assert(after.drop_last()[i] == after[i]);
                    }
                }
                lemma_trajectory_grows(
                    sar_views(before),
                    after.last()@,
                    start,
                    state,
                    opponent_action,
                    self.engine.current_state@,
                    seats,
                );
            }
        }
        let winstate = self.engine.current_state.match_status;
        let match_replay = MatchReplay {
            sars: copy_history(&self.engine.game_history),
            agent_ids,
            p1_won: winstate == WinState::Finished(PlayerWinner::Player1),
        };
        self.match_history.push(match_replay);
        proof {
            assert(self.match_history@.drop_last() =~= old(self).match_history@);
            assert(sound_run(
                self.match_history@.last()@,
                start,
                self.engine.current_state@,
                old(self).conf.max_rounds as int,
                seats,
            ));
        }
    }

    /// Draws an opponent from the pool and plays one match between `primary`
    /// in the first seat and, in the second, the source of the opponent drawn:
    /// the one of `opponents` at the opponent's seat in the pool. The match is
    /// recorded under the first player's identifier and the opponent's. No
    /// other source of `opponents` is asked or changed.
    pub fn play_match_agents<P: AiPlayer, O: AiPlayer>(
        &mut self,
        primary: &mut P,
        opponents: &mut Vec<O>,
        mix: FruitMix,
    )
        requires
            old(self).ready(mix),
            old(opponents)@.len() == old(self).matchmaking.opponent_ids@.len(),
        ensures
            final(self).played_one_more(
                *old(self),
                mix,
                old(primary).policy(),
                policies(old(opponents)@),
            ),
            final(primary).policy() == old(primary).policy(),
            final(opponents)@.len() == old(opponents)@.len(),
            policies(final(opponents)@) == policies(old(opponents)@),
            forall|j: int|
                0 <= j < old(opponents)@.len() && j != seat_of(
                    old(self).matchmaking.opponent_ids@,
                    final(self).match_history@.last().agent_ids.1,
                ) ==> final(opponents)@[j] == old(opponents)@[j],
    {
        let agent_ids = self.matchmaking.sample_pair();
        let seat = find_seat(&self.matchmaking.opponent_ids, agent_ids.1);
        self.play_match(primary, &mut opponents[seat], agent_ids, mix);
        proof {
            assert(policies(opponents@) =~= policies(old(opponents)@));
        }
    }

    /// Plays matches between `primary` and opponents drawn from the pool until
    /// as many are recorded as the configuration asks for, the `i`-th of them
    /// on a board of shares `mixes[i]`, each against the source of the
    /// opponent drawn for it, and returns a copy of all records. The records
    /// held before stay as they are, and each new one is sound.
    pub fn play_matches<P: AiPlayer, O: AiPlayer>(
        &mut self,
        primary: &mut P,
        opponents: &mut Vec<O>,
        mixes: &Vec<FruitMix>,
    ) -> (replays: Vec<MatchReplay>)
        requires
            old(self).matchmaking.opponent_ids@.len() > 0,
            old(opponents)@.len() == old(self).matchmaking.opponent_ids@.len(),
            forall|i: int|
                0 <= i < mixes@.len() ==> old(self).conf.engine_config.admits(#[trigger] mixes@[i]),
            old(self).match_history@.len() + mixes@.len() >= old(self).conf.max_matches,
        ensures
            final(self).filled_quota(
                *old(self),
                mixes@,
                old(primary).policy(),
                policies(old(opponents)@),
            ),
            final(primary).policy() == old(primary).policy(),
            final(opponents)@.len() == old(opponents)@.len(),
            policies(final(opponents)@) == policies(old(opponents)@),
            replays@.len() == final(self).match_history@.len(),
            forall|k: int|
                0 <= k < replays@.len() ==> (#[trigger] replays@[k])@ == final(self).match_history@[k]@,
    {
        let ghost start = self.match_history@;
        let ghost first = primary.policy();
        let ghost sources = policies(opponents@);
        let mut i: usize = 0;
        while self.match_history.len() < self.conf.max_matches as usize
            invariant
                self.conf == old(self).conf,
                self.matchmaking.target_id == old(self).matchmaking.target_id,
                self.matchmaking.opponent_ids == old(self).matchmaking.opponent_ids,
                self.matchmaking.opponent_ids@.len() > 0,
                opponents@.len() == self.matchmaking.opponent_ids@.len(),
                primary.policy() == first,
                policies(opponents@) == sources,
                start == old(self).match_history@,
                forall|j: int|
                    0 <= j < mixes@.len() ==> self.conf.engine_config.admits(#[trigger] mixes@[j]),
                start.len() + mixes@.len() >= self.conf.max_matches,
                self.match_history@.len() == start.len() + i,
                self.match_history@.len() <= self.conf.max_matches || i == 0,
                self.match_history@.take(start.len() as int) == start,
                forall|k: int|
                    start.len() <= k < self.match_history@.len() ==> sound_replay(
                        (#[trigger] self.match_history@[k])@,
                        self.matchmaking.target_id,
                        self.matchmaking.opponent_ids@,
                        self.conf.engine_config,
                        mixes@[k - start.len()],
                        self.conf.max_rounds as int,
                        first,
                        sources,
                    ),
            decreases self.conf.max_matches - self.match_history@.len(),
        {
            let ghost before = *self;
            self.play_match_agents(primary, opponents, mixes[i]);
            proof {
                self.lemma_played_one_more_is_sound(before, mixes@[i as int], first, sources);
                assert(self.match_history@.drop_last() == before.match_history@);
                assert forall|k: int| 0 <= k < before.match_history@.len() implies self.match_history@[k]
                    == before.match_history@[k] by {
                    assert(self.match_history@.drop_last()[k] == self.match_history@[k]);
                }
                assert(self.match_history@.take(start.len() as int) =~= start);
                assert forall|k: int|
                    start.len() <= k < self.match_history@.len() implies sound_replay(
                    (#[trigger] self.match_history@[k])@,
                    self.matchmaking.target_id,
                    self.matchmaking.opponent_ids@,
                    self.conf.engine_config,
                    mixes@[k - start.len()],
                    self.conf.max_rounds as int,
                    first,
                    sources,
                ) by {
                    if k < before.match_history@.len() {
                        assert(self.match_history@[k] == before.match_history@[k]);
                    } else {
                        assert(self.match_history@[k] == self.match_history@.last());
                    }
                }
            }
            i = i + 1;
        }
        copy_replays(&self.match_history)
    }

    /// Plays one match between `primary` in the first seat and a player that
    /// moves at random in the second, and records it under the first player's
    /// identifier and the identifier kept for the random player.
    pub fn play_match_ai<P: AiPlayer>(&mut self, primary: &mut P, mix: FruitMix)
        requires
            old(self).conf.engine_config.admits(mix),
        ensures
            final(self).recorded_one_more(
                *old(self),
                mix,
                (old(self).matchmaking.target_id, RANDOM_PLAYER_ID),
                (Seats { first: old(primary).policy(), second: random_policy() }),
            ),
            final(primary).policy() == old(primary).policy(),
    {
        let player_id = self.matchmaking.target_id;
        let mut opponent = RandomPlayer::new();
        self.play_match(primary, &mut opponent, (player_id, RANDOM_PLAYER_ID), mix);
    }
}

} // verus!
