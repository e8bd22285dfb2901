//! Decision sources: whatever picks a player's action from a state.
use vstd::prelude::*;
use crate::position::Action;
use crate::random::{choose_from, thread_generator};
use crate::state::{legal, GameState, GameView};

verus! {

/// A decision source. The driver hands it every state of a match in turn and
/// plays whatever action comes back; an action that would leave the board
/// counts as doing nothing.
pub trait AiPlayer {
    /// Which actions the source may give for which state. Asking the source
    /// does not change this. A source that says nothing of its policy may give
    /// any action.
    open spec fn policy(&self) -> spec_fn(GameView, Action) -> bool {
        |state: GameView, action: Action| true
    }

    /// An action that the source's policy admits for `current_state`.
    fn get_move(&mut self, current_state: &GameState) -> (action: Action)
        requires
            current_state@.wf(),
        ensures
            old(self).policy()(current_state@, action),
            final(self).policy() == old(self).policy(),
    ;
}

/// The policy of a player that moves at random in the second seat: any action
/// that is legal for the second player.
pub open spec fn random_policy() -> spec_fn(GameView, Action) -> bool {
    |state: GameView, action: Action|
        legal(state.board.size as int, state.player2.position, action)
}

/// A decision source for the second seat that picks one of the legal actions
/// at random.
pub struct RandomPlayer {
    pub rng: rand::rngs::ThreadRng,
}

impl RandomPlayer {
    /// A random player that draws from the thread's generator.
    pub fn new() -> (player: RandomPlayer) {
        RandomPlayer { rng: thread_generator() }
    }
}

impl AiPlayer for RandomPlayer {
    open spec fn policy(&self) -> spec_fn(GameView, Action) -> bool {
        random_policy()
    }

    /// One of the actions that are legal for the second player.
    fn get_move(&mut self, current_state: &GameState) -> (action: Action)
        ensures
            legal(current_state.board.size as int, current_state.player2.position, action),
    {
        let available_actions = current_state.get_valid_moves(&current_state.player2);
        assert(available_actions@.contains(Action::DoNothing));
        let picked = choose_from(&available_actions, &mut self.rng);
        picked.unwrap()
    }
}

} // verus!
