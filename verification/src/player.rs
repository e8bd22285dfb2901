//! A player: where it stands, what it holds, and what the current round has
//! earned it.
use vstd::prelude::*;
use crate::fruit::{FruitCounts, FruitType};
use crate::position::Position;

verus! {

/// One of the two players. Holdings and reward are counted in thousandths.
#[derive(Clone, Copy, Debug, PartialEq, Eq, Structural)]
pub struct Player {
    pub fruit_counts: FruitCounts,
    pub position: Position,
    pub reward: i64,
}

impl Player {
    /// A player at `pos` that holds nothing and has earned nothing.
    pub open spec fn fresh(pos: Position) -> Player {
        Player {
            fruit_counts: FruitCounts { apple: 0, banana: 0, orange: 0 },
            position: pos,
            reward: 0,
        }
    }

    /// The player after it collects `amount` of `fruit`: the holding and the
    /// round's reward both grow by `amount`.
    pub open spec fn gained(self, fruit: FruitType, amount: u32) -> Player {
        Player {
            fruit_counts: self.fruit_counts.with(
                fruit,
                (self.fruit_counts.of(fruit) + amount) as u64,
            ),
            position: self.position,
            reward: (self.reward + amount) as i64,
        }
    }

    /// Collecting `amount` of `fruit` overflows neither the holding nor the
    /// reward.
    pub open spec fn can_gain(self, fruit: FruitType, amount: u32) -> bool {
        &&& self.fruit_counts.of(fruit) + amount <= u64::MAX
        &&& self.reward + amount <= i64::MAX
    }

    /// The player with the round's reward set to `reward`.
    pub open spec fn with_reward(self, reward: i64) -> Player {
        Player { reward, ..self }
    }

    /// The player moved to `pos`.
    pub open spec fn at(self, pos: Position) -> Player {
        Player { position: pos, ..self }
    }

    /// A player at `pos` that holds nothing and has earned nothing.
    pub fn new(pos: Position) -> (player: Player)
        ensures
            player == Player::fresh(pos),
    {
        Player { fruit_counts: FruitCounts::new(), position: pos, reward: 0 }
    }

    /// Puts the player on `new_pos`.
    pub fn move_player(&mut self, new_pos: Position)
        ensures
            *final(self) == old(self).at(new_pos),
    {
        self.position = new_pos;
    }

    /// Credits the player with `amount` thousandths of `fruit`.
    pub fn increment_fruit(&mut self, fruit: FruitType, amount: u32)
        requires
            old(self).can_gain(fruit, amount),
        ensures
            *final(self) == old(self).gained(fruit, amount),
    {
        let held: u64 = self.fruit_counts.get(fruit);
        self.fruit_counts.set(fruit, held + amount as u64);
        self.reward = self.reward + amount as i64;
    }

    /// How many thousandths of `fruit` the player holds.
    pub fn get_fruit_count(&self, fruit: FruitType) -> (amount: u64)
        ensures
            amount == self.fruit_counts.of(fruit),
    {
        self.fruit_counts.get(fruit)
    }
}

} // verus!
