//! Building the first state of a match: an empty board with the players on
//! two fixed cells, or a board on which a seeded shuffle lays out the fruit
//! and seats the players.
use vstd::prelude::*;
use vstd::arithmetic::div_mod::{
    lemma_fundamental_div_mod,
    lemma_fundamental_div_mod_converse,
    lemma_multiply_divide_lt,
};
use crate::board::{
    counts_of,
    lemma_flatten_entry,
    lemma_grid_tally_update,
    lemma_tally_finds,
    tally,
    BoardState,
    BoardView,
};
use crate::config::{lemma_portion_bound, ConfigError, EngineConfig, FruitMix};
use crate::engine::Engine;
use crate::fruit::{FruitCounts, FruitType};
use crate::grid::{grid_filled, grid_put, grid_rows};
use crate::player::Player;
use crate::position::Position;
use crate::random::{shuffle_cells, shuffled_cells};
use crate::state::{GameState, GameView, WinState};

verus! {

/// The cells of a board of `size` by `size` cells, column after column. A
/// board without a side has none.
pub open spec fn all_cells(size: int) -> Seq<Position> {
    if size <= 0 {
        Seq::empty()
    } else {
        Seq::new(
            (size * size) as nat,
            |i: int| Position { x: (i / size) as i8, y: (i % size) as i8 },
        )
    }
}

/// The kind of the `k`-th fruit that is laid out: first the apples, then the
/// oranges, then the bananas.
pub open spec fn kind_at(apples: int, oranges: int, k: int) -> FruitType {
    if k < apples {
        FruitType::Apple
    } else if k < apples + oranges {
        FruitType::Orange
    } else {
        FruitType::Banana
    }
}

/// The fruit to lay out, in order.
pub open spec fn fruit_run(apples: int, oranges: int, bananas: int) -> Seq<FruitType> {
    Seq::new((apples + oranges + bananas) as nat, |k: int| kind_at(apples, oranges, k))
}

/// A grid of `size` by `size` empty cells.
pub open spec fn blank(size: int) -> Seq<Seq<Option<FruitType>>> {
    Seq::new(size as nat, |x: int| Seq::new(size as nat, |y: int| None::<FruitType>))
}

/// The grid after the first `n` fruit of `kinds` are put on the first `n`
/// cells of `order`.
pub open spec fn laid(
    cells: Seq<Seq<Option<FruitType>>>,
    order: Seq<Position>,
    kinds: Seq<FruitType>,
    n: int,
) -> Seq<Seq<Option<FruitType>>>
    decreases n,
{
    if n <= 0 {
        cells
    } else {
        let before = laid(cells, order, kinds, n - 1);
        let at = order[n - 1];
        before.update(at.x as int, before[at.x as int].update(at.y as int, Some(kinds[n - 1])))
    }
}

/// Every cell of `all_cells` lies on the board, and there are `size * size` of
/// them.
pub proof fn lemma_all_cells_within(size: int, i: int)
    requires
        0 < size <= i8::MAX,
        0 <= i < size * size,
    ensures
        all_cells(size).len() == size * size,
        all_cells(size)[i].within(size),
        all_cells(size)[i].x == i / size,
        all_cells(size)[i].y == i % size,
{
    lemma_fundamental_div_mod(i, size);
    lemma_multiply_divide_lt(i, size, size);
    assert(0 <= i / size) by (nonlinear_arith)
        requires
            0 <= i,
            0 < size,
    ;
}

/// No cell occurs twice in `all_cells`.
pub proof fn lemma_all_cells_distinct(size: int)
    requires
        0 < size <= i8::MAX,
    ensures
        all_cells(size).no_duplicates(),
{
    assert forall|i: int, j: int|
        0 <= i < all_cells(size).len() && 0 <= j < all_cells(size).len() && i != j implies all_cells(
        size,
    )[i] != all_cells(size)[j] by {
        lemma_all_cells_within(size, i);
        lemma_all_cells_within(size, j);
        lemma_fundamental_div_mod(i, size);
        lemma_fundamental_div_mod(j, size);
    }
}

/// A rearrangement of `all_cells` holds every cell of the board once, and
/// nothing else.
pub proof fn lemma_rearranged_cells(order: Seq<Position>, size: int)
    requires
        0 < size <= i8::MAX,
        order.to_multiset() == all_cells(size).to_multiset(),
    ensures
        order.len() == size * size,
        order.no_duplicates(),
        forall|i: int| 0 <= i < order.len() ==> (#[trigger] order[i]).within(size),
{
    let all = all_cells(size);
    order.to_multiset_ensures();
    all.to_multiset_ensures();
    assert forall|i: int| 0 <= i < order.len() implies (#[trigger] order[i]).within(size) by {
        assert(order.contains(order[i]));
        assert(order.to_multiset().count(order[i]) > 0);
        assert(all.to_multiset().count(order[i]) > 0);
        assert(all.contains(order[i]));
        let j = choose|j: int| 0 <= j < all.len() && all[j] == order[i];
        lemma_all_cells_within(size, j);
    }
    lemma_all_cells_distinct(size);
    all.lemma_multiset_has_no_duplicates();
    order.lemma_multiset_has_no_duplicates_conv();
}

/// How many of the first `n` fruit of `kinds` are of kind `fruit`.
pub open spec fn run_count(kinds: Seq<FruitType>, n: int, fruit: FruitType) -> int
    decreases n,
{
    if n <= 0 {
        0
    } else {
        run_count(kinds, n - 1, fruit) + if kinds[n - 1] == fruit {
            1int
        } else {
            0int
        }
    }
}

/// Among the first `n` fruit of a run are the apples up to `n`, then the
/// oranges, then the bananas.
pub proof fn lemma_run_count(apples: int, oranges: int, bananas: int, n: int)
    requires
        0 <= apples,
        0 <= oranges,
        0 <= bananas,
        0 <= n <= apples + oranges + bananas,
    ensures
        run_count(fruit_run(apples, oranges, bananas), n, FruitType::Apple) == if n < apples {
            n
        } else {
            apples
        },
        run_count(fruit_run(apples, oranges, bananas), n, FruitType::Orange) == if n < apples {
            0
        } else if n < apples + oranges {
            n - apples
        } else {
            oranges
        },
        run_count(fruit_run(apples, oranges, bananas), n, FruitType::Banana) == if n < apples
            + oranges {
            0
        } else {
            n - apples - oranges
        },
    decreases n,
{
    if n > 0 {
        lemma_run_count(apples, oranges, bananas, n - 1);
    }
}

/// Where fruit are laid on distinct cells of the board, each of those cells
/// holds its fruit, every other cell is as it was, and the grid keeps its
/// shape.
pub proof fn lemma_laid_cells(
    cells: Seq<Seq<Option<FruitType>>>,
    order: Seq<Position>,
    kinds: Seq<FruitType>,
    n: int,
    size: int,
)
    requires
        cells.len() == size,
        forall|x: int| 0 <= x < size ==> (#[trigger] cells[x]).len() == size,
        0 <= n <= order.len(),
        n <= kinds.len(),
        order.no_duplicates(),
        forall|k: int| 0 <= k < order.len() ==> (#[trigger] order[k]).within(size),
    ensures
        laid(cells, order, kinds, n).len() == size,
        forall|x: int| 0 <= x < size ==> (#[trigger] laid(cells, order, kinds, n)[x]).len() == size,
        forall|k: int|
            0 <= k < n ==> laid(cells, order, kinds, n)[(#[trigger] order[k]).x as int][order[k].y as int]
                == Some(kinds[k]),
        forall|k: int|
            n <= k < order.len() ==> laid(cells, order, kinds, n)[(#[trigger] order[k]).x as int][order[k].y as int]
                == cells[order[k].x as int][order[k].y as int],
    decreases n,
{
    if n > 0 {
        lemma_laid_cells(cells, order, kinds, n - 1, size);
        let before = laid(cells, order, kinds, n - 1);
        let at = order[n - 1];
        assert(at.within(size));
        assert forall|k: int| 0 <= k < order.len() && k != n - 1 implies laid(
            cells,
            order,
            kinds,
            n,
        )[(#[trigger] order[k]).x as int][order[k].y as int]
            == before[order[k].x as int][order[k].y as int] by {
            assert(order[k] != at);
            assert(order[k].within(size));
        }
    }
}

/// Where fruit are laid on distinct cells of an empty board, the board holds
/// of each kind as many as were laid.
pub proof fn lemma_laid_tally(
    order: Seq<Position>,
    kinds: Seq<FruitType>,
    n: int,
    size: int,
    fruit: FruitType,
)
    requires
        0 <= size,
        0 <= n <= order.len(),
        n <= kinds.len(),
        order.no_duplicates(),
        forall|k: int| 0 <= k < order.len() ==> (#[trigger] order[k]).within(size),
    ensures
        tally(laid(blank(size), order, kinds, n).flatten(), fruit) == run_count(kinds, n, fruit),
    decreases n,
{
    if n <= 0 {
        lemma_blank_tally(size, fruit);
    } else {
        lemma_laid_tally(order, kinds, n - 1, size, fruit);
        lemma_laid_cells(blank(size), order, kinds, n - 1, size);
        let before = laid(blank(size), order, kinds, n - 1);
        let at = order[n - 1];
        assert(at.within(size));
        assert(before[at.x as int][at.y as int] == blank(size)[at.x as int][at.y as int]);
        lemma_grid_tally_update(before, at.x as int, at.y as int, Some(kinds[n - 1]), fruit);
    }
}

/// An empty grid holds no fruit of any kind.
pub proof fn lemma_blank_tally(size: int, fruit: FruitType)
    requires
        0 <= size,
    ensures
        tally(blank(size).flatten(), fruit) == 0,
{
    let grid = blank(size);
    if tally(grid.flatten(), fruit) > 0 {
        lemma_tally_finds(grid.flatten(), fruit);
        let i = choose|i: int| 0 <= i < grid.flatten().len() && grid.flatten()[i] == Some(fruit);
        lemma_flatten_entry(grid, i);
    }
}

impl EngineConfig {
    /// The order in which the cells of the board are used: the seeded shuffle
    /// of all its cells.
    pub open spec fn deal(self) -> Seq<Position> {
        shuffled_cells(self.random_seed, all_cells(self.board_size as int))
    }

    /// The fruit to lay out under `mix`, in order.
    pub open spec fn kinds(self, mix: FruitMix) -> Seq<FruitType> {
        fruit_run(
            self.planned(mix, FruitType::Apple),
            self.planned(mix, FruitType::Orange),
            self.planned(mix, FruitType::Banana),
        )
    }

    /// The cells of the first board. An unpopulated board is empty. On a
    /// populated board the fruit take the first cells of the deal.
    pub open spec fn start_cells(self, mix: FruitMix) -> Seq<Seq<Option<FruitType>>> {
        if self.populate_board {
            laid(
                blank(self.board_size as int),
                self.deal(),
                self.kinds(mix),
                self.kinds(mix).len() as int,
            )
        } else {
            blank(self.board_size as int)
        }
    }

    /// Where the two players start. On an unpopulated board these are the
    /// cells (0, 0) and (1, 1); on a populated board, the two cells of the deal
    /// that follow those of the fruit.
    pub open spec fn start_seats(self, mix: FruitMix) -> (Position, Position) {
        if self.populate_board {
            (self.deal()[self.kinds(mix).len() as int], self.deal()[self.kinds(mix).len() as int + 1])
        } else {
            (Position { x: 0, y: 0 }, Position { x: 1, y: 1 })
        }
    }

    /// The first state of a match built from the configuration and `mix`.
    pub open spec fn start(self, mix: FruitMix) -> GameView {
        GameView {
            player1: Player::fresh(self.start_seats(mix).0),
            player2: Player::fresh(self.start_seats(mix).1),
            board: BoardView {
                cells: self.start_cells(mix),
                size: self.board_size,
                fruit_counts: counts_of(self.start_cells(mix)),
            },
            round: 0,
            match_status: WinState::InProgress,
        }
    }

    /// `state` is a sound first state for the configuration and `mix`: it is
    /// well-formed; the players stand apart on empty cells and hold nothing;
    /// and the board holds of each kind as many fruit as are planned if it is
    /// populated, and none if it is not.
    pub open spec fn sound_start(self, mix: FruitMix, state: GameView) -> bool {
        &&& state.wf()
        &&& state.board.size == self.board_size
        &&& state.round == 0
        &&& state.match_status == WinState::InProgress
        &&& state.players_apart()
        &&& state.players_on_empty_cells()
        &&& state.player1 == Player::fresh(state.player1.position)
        &&& state.player2 == Player::fresh(state.player2.position)
        &&& forall|fruit: FruitType|
            #![trigger state.board.remaining(fruit)]
            state.board.remaining(fruit) == self.laid_out(mix, fruit)
        &&& !self.populate_board ==> state.board.bare()
    }

    /// How many fruit of kind `fruit` the first board holds: as many as are
    /// planned if it is populated, and none if it is not.
    pub open spec fn laid_out(self, mix: FruitMix, fruit: FruitType) -> int {
        if self.populate_board {
            self.planned(mix, fruit)
        } else {
            0
        }
    }

    /// Where the deal is a rearrangement of the board's cells, the first state
    /// is sound.
    pub proof fn lemma_start_is_sound(self, mix: FruitMix)
        requires
            self.admits(mix),
            self.populate_board ==> self.deal().to_multiset() == all_cells(
                self.board_size as int,
            ).to_multiset(),
        ensures
            self.sound_start(mix, self.start(mix)),
    {
        let size = self.board_size as int;
        let state = self.start(mix);
        let total = self.total_fruit();
        assert(0 <= self.cell_count() <= 127 * 127) by (nonlinear_arith)
            requires
                2 <= self.board_size <= 127,
                self.cell_count() == self.board_size * self.board_size,
        ;
        assert(0 <= self.fruit_density * self.cell_count() <= 1000 * self.cell_count())
            by (nonlinear_arith)
            requires
                0 <= self.fruit_density <= 1000,
                0 <= self.cell_count(),
        ;
        lemma_portion_bound(total, mix.apple as int);
        lemma_portion_bound(total, mix.banana as int);
        lemma_portion_bound(total, mix.orange as int);
        let apples = self.planned(mix, FruitType::Apple);
        let oranges = self.planned(mix, FruitType::Orange);
        let bananas = self.planned(mix, FruitType::Banana);
        let kinds = self.kinds(mix);
        let n = kinds.len() as int;
        if self.populate_board {
            let order = self.deal();
            lemma_rearranged_cells(order, size);
            lemma_laid_cells(blank(size), order, kinds, n, size);
            lemma_laid_tally(order, kinds, n, size, FruitType::Apple);
            lemma_laid_tally(order, kinds, n, size, FruitType::Orange);
            lemma_laid_tally(order, kinds, n, size, FruitType::Banana);
            lemma_run_count(apples, oranges, bananas, n);
            assert(order[n].within(size));
            assert(order[n + 1].within(size));
            assert(state.board.remaining(FruitType::Apple) == apples);
            assert(state.board.remaining(FruitType::Orange) == oranges);
            assert(state.board.remaining(FruitType::Banana) == bananas);
        } else {
            lemma_blank_tally(size, FruitType::Apple);
            lemma_blank_tally(size, FruitType::Orange);
            lemma_blank_tally(size, FruitType::Banana);
        }
        assert forall|fruit: FruitType|
            #![trigger state.board.remaining(fruit)]
            state.board.remaining(fruit) == self.laid_out(mix, fruit) by {
            match fruit {
                FruitType::Apple => {},
                FruitType::Orange => {},
                FruitType::Banana => {},
            }
        }
    }
}

/// Two engines built from the same configuration, seed included, and the same
/// shares start from the same board with the players on the same cells.
pub proof fn lemma_same_seed_same_start(
    conf1: EngineConfig,
    mix1: FruitMix,
    conf2: EngineConfig,
    mix2: FruitMix,
)
    requires
        conf1 == conf2,
        mix1 == mix2,
    ensures
        conf1.start(mix1) == conf2.start(mix2),
{
}

impl Engine {
    /// An engine at the first state of a match, with nothing recorded.
    pub fn new(conf: EngineConfig, mix: FruitMix) -> (engine: Engine)
        requires
            conf.admits(mix),
        ensures
            engine.current_state@ == conf.start(mix),
            conf.sound_start(mix, engine.current_state@),
            engine.game_history@.len() == 0,
    {
        let (board_state, player1, player2) = Engine::initialise_board(conf, mix);
        Engine {
            game_history: Vec::new(),
            current_state: GameState {
                player1,
                player2,
                board: board_state,
                round: 0,
                match_status: WinState::InProgress,
            },
        }
    }

    /// An engine at the first state of a match, or the reason why the
    /// configuration and `mix` allow none.
    pub fn try_new(conf: EngineConfig, mix: FruitMix) -> (made: Result<Engine, ConfigError>)
        ensures
            made is Ok <==> conf.admits(mix),
            made is Err ==> conf.fault(mix) == Some(made->Err_0),
            made is Ok ==> {
                &&& made->Ok_0.current_state@ == conf.start(mix)
                &&& conf.sound_start(mix, made->Ok_0.current_state@)
                &&& made->Ok_0.game_history@.len() == 0
            },
    {
        match conf.check(&mix) {
            Ok(_) => Ok(Engine::new(conf, mix)),
            Err(fault) => Err(fault),
        }
    }

    /// The first board of a match and the two players on it.
    pub fn initialise_board(conf: EngineConfig, mix: FruitMix) -> (made: (
        BoardState,
        Player,
        Player,
    ))
        requires
            conf.admits(mix),
        ensures
            made.0@ == conf.start(mix).board,
            made.1 == conf.start(mix).player1,
            made.2 == conf.start(mix).player2,
            conf.sound_start(mix, conf.start(mix)),
    {
        let side: usize = conf.board_size as usize;
        assert(side * side <= 127 * 127) by (nonlinear_arith)
            requires
                side <= 127,
        ;
        let mut board = BoardState {
            fruit_map: grid_filled(side, None),
            size: conf.board_size,
            fruit_counts: FruitCounts::new(),
        };
        assert(board@.cells =~~= blank(conf.board_size as int));
        let mut player1 = Player::new(Position::new(0, 0));
        let mut player2 = Player::new(Position::new(1, 1));

        if conf.populate_board {
            let mut cells: Vec<Position> = Engine::board_positions(conf.board_size);
            shuffle_cells(conf.random_seed, &mut cells);
            proof {
                lemma_rearranged_cells(cells@, conf.board_size as int);
                conf.lemma_start_is_sound(mix);
            }
            let total: u64 = conf.fruit_total();
            proof {
                lemma_portion_bound(total as int, mix.apple as int);
                lemma_portion_bound(total as int, mix.banana as int);
                lemma_portion_bound(total as int, mix.orange as int);
            }
            let apples: u64 = EngineConfig::fruit_portion(total, mix.apple);
            let oranges: u64 = EngineConfig::fruit_portion(total, mix.orange);
            let bananas: u64 = EngineConfig::fruit_portion(total, mix.banana);
            let kinds: Vec<FruitType> = Engine::fruit_values(apples, oranges, bananas);
            let count: usize = kinds.len();

            let mut k: usize = 0;
            while k < count
                invariant
                    k <= count,
                    count == kinds@.len(),
                    count + 2 <= cells@.len(),
                    board.size == conf.board_size,
                    0 < conf.board_size,
                    forall|i: int|
                        0 <= i < cells@.len() ==> (#[trigger] cells@[i]).within(
                            conf.board_size as int,
                        ),
                    board@.shaped(),
                    board@.cells == laid(
                        blank(conf.board_size as int),
                        cells@,
                        kinds@,
                        k as int,
                    ),
                decreases count - k,
            {
                let at: Position = cells[k];
                grid_put(&mut board.fruit_map, at.x as usize, at.y as usize, Some(kinds[k]));
                k = k + 1;
            }
            player1.position = cells[count];
            player2.position = cells[count + 1];
        } else {
            proof {
                conf.lemma_start_is_sound(mix);
            }
        }
        board.update_fruit_counts();
        (board, player1, player2)
    }

    /// The cells of a board of `size` by `size` cells, column after column.
    pub fn board_positions(size: i8) -> (cells: Vec<Position>)
        ensures
            cells@ == all_cells(size as int),
    {
        let mut cells: Vec<Position> = Vec::new();
        if size <= 0 {
            return cells;
        }
        let mut x: i8 = 0;
        while x < size
            invariant
                0 < size,
                0 <= x <= size,
                cells@.len() == x * size,
                forall|i: int|
                    0 <= i < cells@.len() ==> (#[trigger] cells@[i]) == (Position {
                        x: (i / (size as int)) as i8,
                        y: (i % (size as int)) as i8,
                    }),
            decreases size - x,
        {
            let mut y: i8 = 0;
            while y < size
                invariant
                    0 < size,
                    0 <= x < size,
                    0 <= y <= size,
                    cells@.len() == x * size + y,
                    forall|i: int|
                        0 <= i < cells@.len() ==> (#[trigger] cells@[i]) == (Position {
                            x: (i / (size as int)) as i8,
                            y: (i % (size as int)) as i8,
                        }),
                decreases size - y,
            {
                proof {
                    lemma_fundamental_div_mod_converse(
                        x * size + y,
                        size as int,
                        x as int,
                        y as int,
                    );
                }
                cells.push(Position::new(x, y));
                y = y + 1;
            }
            assert(x * size + size == (x + 1) * size) by (nonlinear_arith);
            x = x + 1;
        }
        assert(cells@ =~= all_cells(size as int));
        cells
    }

    /// The fruit to lay out, in order: the apples, the oranges, the bananas.
    pub fn fruit_values(apples: u64, oranges: u64, bananas: u64) -> (kinds: Vec<FruitType>)
        requires
            apples + oranges + bananas <= usize::MAX,
        ensures
            kinds@ == fruit_run(apples as int, oranges as int, bananas as int),
    {
        let mut kinds: Vec<FruitType> = Vec::new();
        let total: u64 = apples + oranges + bananas;
        let mut k: u64 = 0;
        while k < total
            invariant
                total == apples + oranges + bananas,
                total <= usize::MAX,
                k <= total,
                kinds@.len() == k,
                forall|i: int|
                    0 <= i < k ==> (#[trigger] kinds@[i]) == kind_at(
                        apples as int,
                        oranges as int,
                        i,
                    ),
            decreases total - k,
        {
            if k < apples {
                kinds.push(FruitType::Apple);
            } else if k < apples + oranges {
                kinds.push(FruitType::Orange);
            } else {
                kinds.push(FruitType::Banana);
            }
            k = k + 1;
        }
        assert(kinds@ =~= fruit_run(apples as int, oranges as int, bananas as int));
        kinds
    }
}

} // verus!
