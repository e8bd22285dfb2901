//! What a board is made from: its size, how densely fruit covers it, the
//! shares of the three kinds, and the seed of the layout.
use vstd::prelude::*;
use crate::fruit::FruitType;

verus! {

/// How a board is built. The density is the number of fruit per thousand
/// cells.
#[derive(Clone, Copy, Debug, PartialEq, Eq, Structural)]
pub struct EngineConfig {
    pub board_size: i8,
    pub fruit_density: u32,
    pub populate_board: bool,
    pub random_seed: u64,
}

/// The shares of the three kinds among the fruit of a board, each in
/// thousandths of the whole.
#[derive(Clone, Copy, Debug, PartialEq, Eq, Structural)]
pub struct FruitMix {
    pub apple: u32,
    pub banana: u32,
    pub orange: u32,
}

/// Why a configuration is refused.
#[derive(Clone, Copy, Debug, PartialEq, Eq, Structural)]
pub enum ConfigError {
    /// The side is shorter than two cells.
    BoardTooSmall,
    /// The density is more than one fruit per cell.
    DensityOutOfRange,
    /// The fruit and the two players need more cells than the board has.
    BoardTooCrowded,
}

/// The least odd number that is not below `n`.
pub open spec fn odd_up(n: int) -> int {
    n + 1 - n % 2
}

/// How many fruit a kind with `share` thousandths gets of `total`: the share
/// of the total, rounded to the nearest number, then raised to an odd number.
pub open spec fn portion(total: int, share: int) -> int {
    odd_up((share * total + 500) / 1000)
}

/// A portion is odd, and on a board that a configuration can describe it
/// stays far below what a machine word holds.
pub proof fn lemma_portion_bound(total: int, share: int)
    requires
        0 <= total <= 128 * 128,
        0 <= share <= u32::MAX,
    ensures
        1 <= portion(total, share) <= 0x20_0000_0000,
        portion(total, share) % 2 == 1,
        share * total + 500 <= u64::MAX,
{
    assert(0 <= share * total <= 0xffff_ffff * (128 * 128)) by (nonlinear_arith)
        requires
            0 <= total <= 128 * 128,
            0 <= share <= 0xffff_ffff,
    ;
}

/// Portions of shares that add up to the whole add up to the total, but for
/// the rounding: at most one less, and at most four more.
pub proof fn lemma_whole_mix_total(total: int, mix: FruitMix)
    requires
        0 <= total,
        mix.whole(),
    ensures
        total - 1 <= portion(total, mix.apple as int) + portion(total, mix.banana as int) + portion(
            total,
            mix.orange as int,
        ) <= total + 4,
{
    let a = mix.apple * total;
    let b = mix.banana * total;
    let c = mix.orange * total;
    assert(a + b + c == 1000 * total && a >= 0 && b >= 0 && c >= 0) by (nonlinear_arith)
        requires
            a == mix.apple * total,
            b == mix.banana * total,
            c == mix.orange * total,
            mix.apple + mix.banana + mix.orange == 1000,
            0 <= total,
    ;
}

impl FruitMix {
    /// The shares of `fruit`.
    pub open spec fn of(self, fruit: FruitType) -> u32 {
        match fruit {
            FruitType::Apple => self.apple,
            FruitType::Banana => self.banana,
            FruitType::Orange => self.orange,
        }
    }

    /// The shares add up to the whole.
    pub open spec fn whole(self) -> bool {
        self.apple + self.banana + self.orange == 1000
    }

    /// The mix in which the apples have `apple` thousandths, the oranges
    /// `orange` thousandths and the bananas what is left of the whole. A share
    /// that is more than what is left for it is cut down to that.
    pub fn from_shares(apple: u32, orange: u32) -> (mix: FruitMix)
        ensures
            mix.whole(),
            mix.apple == if apple <= 1000 { apple } else { 1000u32 },
            mix.orange == if orange <= 1000 - mix.apple { orange } else { (1000 - mix.apple) as u32 },
    {
        let apples: u32 = if apple <= 1000 { apple } else { 1000 };
        let oranges: u32 = if orange <= 1000 - apples { orange } else { 1000 - apples };
        FruitMix { apple: apples, banana: 1000 - apples - oranges, orange: oranges }
    }

    /// Equal shares for the three kinds.
    pub fn even() -> (mix: FruitMix)
        ensures
            mix == (FruitMix { apple: 333, banana: 333, orange: 333 }),
    {
        FruitMix { apple: 333, banana: 333, orange: 333 }
    }
}

impl EngineConfig {
    /// The number of cells of the board.
    pub open spec fn cell_count(self) -> int {
        self.board_size * self.board_size
    }

    /// The number of fruit that the density asks for: the density times the
    /// number of cells, rounded up.
    pub open spec fn total_fruit(self) -> int {
        (self.fruit_density * self.cell_count() + 999) / 1000
    }

    /// The number of fruit of kind `fruit` that are laid out under `mix`.
    pub open spec fn planned(self, mix: FruitMix, fruit: FruitType) -> int {
        portion(self.total_fruit(), mix.of(fruit) as int)
    }

    /// The number of fruit of all kinds that are laid out under `mix`.
    pub open spec fn planned_total(self, mix: FruitMix) -> int {
        self.planned(mix, FruitType::Apple) + self.planned(mix, FruitType::Banana) + self.planned(
            mix,
            FruitType::Orange,
        )
    }

    /// The side and the density are in range.
    pub open spec fn in_range(self) -> bool {
        2 <= self.board_size && self.fruit_density <= 1000
    }

    /// A board can be built from the configuration and `mix`: side and density
    /// are in range, and where the board is populated, the fruit leave two
    /// cells for the players.
    pub open spec fn admits(self, mix: FruitMix) -> bool {
        &&& self.in_range()
        &&& self.populate_board ==> self.planned_total(mix) + 2 <= self.cell_count()
    }

    /// Why the configuration and `mix` are refused, if they are.
    pub open spec fn fault(self, mix: FruitMix) -> Option<ConfigError> {
        if self.board_size < 2 {
            Some(ConfigError::BoardTooSmall)
        } else if self.fruit_density > 1000 {
            Some(ConfigError::DensityOutOfRange)
        } else if self.populate_board && self.planned_total(mix) + 2 > self.cell_count() {
            Some(ConfigError::BoardTooCrowded)
        } else {
            None
        }
    }

    /// The same configuration with the seed `seed`.
    pub open spec fn reseeded(self, seed: u64) -> EngineConfig {
        EngineConfig { random_seed: seed, ..self }
    }

    /// The same configuration with the seed `seed`.
    pub fn with_seed(&self, seed: u64) -> (conf: EngineConfig)
        ensures
            conf == self.reseeded(seed),
    {
        EngineConfig {
            board_size: self.board_size,
            fruit_density: self.fruit_density,
            populate_board: self.populate_board,
            random_seed: seed,
        }
    }

    /// A populated board of ten by ten cells with a fruit on every fifth cell.
    pub fn default() -> (conf: EngineConfig)
        ensures
            conf == (EngineConfig {
                board_size: 10,
                fruit_density: 200,
                populate_board: true,
                random_seed: 123,
            }),
    {
        EngineConfig { board_size: 10, fruit_density: 200, populate_board: true, random_seed: 123 }
    }

    /// The number of cells of the board.
    pub fn cells(&self) -> (cells: u64)
        ensures
            cells == self.cell_count(),
            cells <= 128 * 128,
    {
        let side: i64 = self.board_size as i64;
        assert(0 <= side * side <= 128 * 128) by (nonlinear_arith)
            requires
                -128 <= side <= 127,
        ;
        (side * side) as u64
    }

    /// The number of fruit that the density asks for.
    pub fn fruit_total(&self) -> (total: u64)
        ensures
            total == self.total_fruit(),
            self.fruit_density <= 1000 ==> total <= self.cell_count(),
    {
        let cells: u64 = self.cells();
        assert(self.fruit_density as u64 * cells <= 0xffff_ffff * (128 * 128)) by (nonlinear_arith)
            requires
                self.fruit_density <= 0xffff_ffff,
                cells <= 128 * 128,
        ;
        assert(self.fruit_density <= 1000 ==> self.fruit_density as u64 * cells <= 1000 * cells)
            by (nonlinear_arith);
        (self.fruit_density as u64 * cells + 999) / 1000
    }

    /// The number of fruit that a kind with `share` thousandths gets of
    /// `total`.
    pub fn fruit_portion(total: u64, share: u32) -> (count: u64)
        requires
            share * total + 500 <= u64::MAX,
        ensures
            count == portion(total as int, share as int),
            count % 2 == 1,
    {
        let rounded: u64 = (share as u64 * total + 500) / 1000;
        rounded + 1 - rounded % 2
    }

    /// Accepts the configuration and `mix`, or says why a board cannot be
    /// built from them.
    pub fn check(&self, mix: &FruitMix) -> (verdict: Result<(), ConfigError>)
        ensures
            verdict is Ok <==> self.admits(*mix),
            verdict is Err ==> self.fault(*mix) == Some(verdict->Err_0),
            verdict is Ok ==> self.fault(*mix) is None,
    {
        if self.board_size < 2 {
            return Err(ConfigError::BoardTooSmall);
        }
        if self.fruit_density > 1000 {
            return Err(ConfigError::DensityOutOfRange);
        }
        if self.populate_board {
            let cells: u64 = self.cells();
            let total: u64 = self.fruit_total();
            proof {
                lemma_portion_bound(total as int, mix.apple as int);
                lemma_portion_bound(total as int, mix.banana as int);
                lemma_portion_bound(total as int, mix.orange as int);
            }
            let apples: u64 = EngineConfig::fruit_portion(total, mix.apple);
            let bananas: u64 = EngineConfig::fruit_portion(total, mix.banana);
            let oranges: u64 = EngineConfig::fruit_portion(total, mix.orange);
            if apples + bananas + oranges + 2 > cells {
                return Err(ConfigError::BoardTooCrowded);
            }
        }
        Ok(())
    }
}

} // verus!
