//! The three kinds of fruit and tallies over them.
use vstd::prelude::*;
use vstd::std_specs::convert::TryFromSpecImpl;
use crate::random::draw_between;

verus! {

/// A kind of fruit. The set is closed: a tally has a slot for each.
#[derive(Clone, Copy, Debug, PartialEq, Eq, Hash, Structural)]
pub enum FruitType {
    Apple,
    Banana,
    Orange,
}

impl FruitType {
    /// The number that stands for the kind: 1, 2 and 3.
    pub open spec fn code(self) -> int {
        match self {
            FruitType::Apple => 1,
            FruitType::Banana => 2,
            FruitType::Orange => 3,
        }
    }

    /// The kind a number stands for, if any.
    pub open spec fn decode(v: int) -> Result<FruitType, ()> {
        if v == 1 {
            Ok(FruitType::Apple)
        } else if v == 2 {
            Ok(FruitType::Banana)
        } else if v == 3 {
            Ok(FruitType::Orange)
        } else {
            Err(())
        }
    }

    /// The number that stands for `foo`.
    pub fn as_num(foo: FruitType) -> (n: i8)
        ensures
            n == foo.code(),
    {
        match foo {
            FruitType::Apple => 1,
            FruitType::Banana => 2,
            FruitType::Orange => 3,
        }
    }

    /// A kind drawn from the thread's generator.
    pub fn random_fruit(rng: &mut rand::rngs::ThreadRng) -> (fruit: FruitType) {
        let n: i32 = draw_between(rng, 1, 3);
        FruitType::try_from(n).unwrap()
    }
}

impl TryFrom<i32> for FruitType {
    type Error = ();

    fn try_from(v: i32) -> (r: Result<FruitType, ()>) {
        if v == 1 {
            Ok(FruitType::Apple)
        } else if v == 2 {
            Ok(FruitType::Banana)
        } else if v == 3 {
            Ok(FruitType::Orange)
        } else {
            Err(())
        }
    }
}

impl TryFromSpecImpl<i32> for FruitType {
    open spec fn obeys_try_from_spec() -> bool {
        true
    }

    open spec fn try_from_spec(v: i32) -> Result<FruitType, ()> {
        FruitType::decode(v as int)
    }
}

/// Decoding undoes encoding, and only 1, 2 and 3 decode.
pub proof fn lemma_fruit_codes(fruit: FruitType, v: int)
    ensures
        FruitType::decode(fruit.code()) == Ok::<FruitType, ()>(fruit),
        FruitType::decode(v) is Ok <==> 1 <= v <= 3,
{
}

/// One number for each kind of fruit. A board counts cells with it; a player
/// counts thousandths of a fruit.
#[derive(Clone, Copy, Debug, PartialEq, Eq, Structural)]
pub struct FruitCounts {
    pub apple: u64,
    pub banana: u64,
    pub orange: u64,
}

impl FruitCounts {
    /// The number held for `fruit`.
    pub open spec fn of(self, fruit: FruitType) -> u64 {
        match fruit {
            FruitType::Apple => self.apple,
            FruitType::Banana => self.banana,
            FruitType::Orange => self.orange,
        }
    }

    /// The tally with `amount` in the slot of `fruit` and the other slots kept.
    pub open spec fn with(self, fruit: FruitType, amount: u64) -> FruitCounts {
        match fruit {
            FruitType::Apple => FruitCounts { apple: amount, ..self },
            FruitType::Banana => FruitCounts { banana: amount, ..self },
            FruitType::Orange => FruitCounts { orange: amount, ..self },
        }
    }

    /// Every slot is zero.
    pub open spec fn all_zero(self) -> bool {
        self.apple == 0 && self.banana == 0 && self.orange == 0
    }

    /// A tally of nothing.
    pub fn new() -> (counts: FruitCounts)
        ensures
            counts.all_zero(),
    {
        FruitCounts { apple: 0, banana: 0, orange: 0 }
    }

    /// The number held for `fruit`.
    pub fn get(&self, fruit: FruitType) -> (amount: u64)
        ensures
            amount == self.of(fruit),
    {
        match fruit {
            FruitType::Apple => self.apple,
            FruitType::Banana => self.banana,
            FruitType::Orange => self.orange,
        }
    }

    /// Sets the number held for `fruit` to `amount`.
    pub fn set(&mut self, fruit: FruitType, amount: u64)
        ensures
            *final(self) == old(self).with(fruit, amount),
    {
        match fruit {
            FruitType::Apple => { self.apple = amount; },
            FruitType::Banana => { self.banana = amount; },
            FruitType::Orange => { self.orange = amount; },
        }
    }

    /// The largest of the three numbers.
    pub fn max(&self) -> (most: u64)
        ensures
            most >= self.apple && most >= self.banana && most >= self.orange,
            most == self.apple || most == self.banana || most == self.orange,
    {
        let mut most: u64 = self.apple;
        if self.banana > most {
            most = self.banana;
        }
        if self.orange > most {
            most = self.orange;
        }
        most
    }
}

} // verus!
