use vstd::arithmetic::power2::{lemma_pow2_unfold, pow2};
use vstd::prelude::*;

use crate::dice::Dice;
use crate::rules::{hand, hits_after, multiplier};
use crate::table::Spot;

verus! {

/// `x` is a value of `i64`.
pub open spec fn in_i64(x: int) -> bool {
    i64::MIN <= x <= i64::MAX
}

/// What a shooter's rolls (`r` of them, the last a seven) return to the
/// strategy that covers the board for two rolls.
pub open spec fn board_two_rolls_return(r: int) -> int {
    if r == 1 {
        -30
    } else if r == 2 {
        -25
    } else {
        10
    }
}

/// ... to the strategy that bets the run and takes half back after one run.
pub open spec fn press_half_run_return(r: int) -> int {
    if 1 <= r <= 4 {
        -30
    } else if 5 <= r <= 8 {
        -15
    } else {
        75
    }
}

/// ... to the strategy that bets one run.
pub open spec fn single_run_return(r: int) -> int {
    if 1 <= r <= 4 {
        -30
    } else {
        30
    }
}

/// ... to the strategy that bets two runs.
pub open spec fn double_run_return(r: int) -> int {
    if 1 <= r <= 4 {
        -30
    } else if 5 <= r <= 8 {
        0
    } else {
        60
    }
}

/// ... to the strategy that covers the board for one roll.
pub open spec fn board_single_roll_return(r: int) -> int {
    if r == 1 {
        -30
    } else {
        5
    }
}

/// ... to the strategy that bets the run and presses it once.
pub open spec fn run_single_press_return(r: int) -> int {
    if 1 <= r <= 8 {
        -30
    } else {
        90
    }
}

/// What one roll returns to the hard 6 / hard 8 strategy, after `round`
/// hits: 75 for each of the two that the roll wins, -30 when it ends the
/// shooter.
pub open spec fn hard_six_eight_return(round: u8, roll: Dice) -> int {
    (if multiplier(round, roll, Spot::Hard6) > 1 {
        75int
    } else {
        0
    }) + (if multiplier(round, roll, Spot::Hard8) > 1 {
        75int
    } else {
        0
    }) - (if multiplier(round, roll, Spot::Seven) > 0 {
        30int
    } else {
        0
    })
}

/// A roll that pays the seven spot ends the shooter.
pub open spec fn ends_shooter(round: u8, roll: Dice) -> bool {
    multiplier(round, roll, Spot::Seven) > 0
}

/// The three progressions that the simulator plays.
#[derive(Clone, Copy, Debug, PartialEq, Eq, Structural)]
pub enum Plan {
    /// Loses unless the shooter makes two runs; a win pays double.
    Press,
    /// Loses unless the shooter makes a run; a win pays even.
    Take,
    /// Takes the first win at even money, presses the ones after it.
    TakeThenPress,
}

/// A progression's bankroll: a bet of eight that doubles after every
/// second losing shooter, returns to eight after a win, and drops to
/// nothing for good once the balance falls below -500.
#[derive(Clone, Copy, Debug, PartialEq, Eq, Structural)]
pub struct Progression {
    pub balance: i64,
    pub bet: i64,
    /// Shooters lost since the last win.
    pub losses: u8,
    /// The balance has fallen below -500.
    pub maxed: bool,
}

impl Progression {
    /// After a losing shooter.
    pub open spec fn lost(self) -> Progression {
        Progression {
            balance: (self.balance - self.bet) as i64,
            losses: (self.losses + 1) as u8,
            ..self
        }
    }

    /// After a winning shooter that pays `factor` times the bet.
    pub open spec fn won(self, factor: int) -> Progression {
        Progression { balance: (self.balance + factor * self.bet) as i64, losses: 0, ..self }
    }

    /// What `plan` makes of a shooter who rolled `r` times: 0 loses, 1 wins
    /// even money, 2 wins double.
    pub open spec fn payoff(self, plan: Plan, r: int) -> int {
        match plan {
            Plan::Press => if 1 <= r <= 8 {
                0
            } else {
                2
            },
            Plan::Take => if 1 <= r <= 4 {
                0
            } else {
                1
            },
            Plan::TakeThenPress => if 1 <= r <= 4 {
                0
            } else if 5 <= r <= 8 {
                if self.bet == 8 {
                    1
                } else {
                    0
                }
            } else {
                if self.bet == 8 {
                    1
                } else {
                    2
                }
            },
        }
    }

    /// After a shooter who rolled `r` times, under `plan`.
    pub open spec fn settled(self, plan: Plan, r: int) -> Progression {
        let k = self.payoff(plan, r);
        if k == 0 {
            self.lost()
        } else {
            self.won(k)
        }
    }

    /// Settling stays within the integer types.
    pub open spec fn settle_fits(self, plan: Plan, r: int) -> bool {
        let k = self.payoff(plan, r);
        if k == 0 {
            in_i64(self.balance - self.bet) && self.losses < 255
        } else {
            in_i64(k * self.bet) && in_i64(self.balance + k * self.bet)
        }
    }

    /// Before the next shooter: the bet doubles when the losses since the
    /// last win are even and not zero, is eight when there are none, and is
    /// zero (for good) once the balance is below -500.
    pub open spec fn started(self) -> Progression {
        let next_bet: int = if self.losses > 0 {
            if self.losses % 2 == 0 {
                self.bet * 2
            } else {
                self.bet as int
            }
        } else {
            8
        };
        if self.balance < -500 {
            Progression { bet: 0, maxed: true, ..self }
        } else {
            Progression { bet: next_bet as i64, ..self }
        }
    }

    /// Starting a shooter stays within `i64`.
    pub open spec fn start_fits(self) -> bool {
        self.losses > 0 && self.losses % 2 == 0 ==> in_i64(self.bet * 2)
    }

    /// A fresh bankroll with the first bet of eight placed.
    pub fn new() -> (p: Progression)
        ensures
            p == (Progression { balance: 0, bet: 8, losses: 0, maxed: false }),
    {
        Progression { balance: 0, bet: 8, losses: 0, maxed: false }
    }

    /// Whether `settle` stays within the integer types.
    pub fn settle_fits_check(&self, plan: Plan, r: i32) -> (b: bool)
        ensures
            b == self.settle_fits(plan, r as int),
    {
        let k = self.payoff_of(plan, r);
        let balance = self.balance as i128;
        let bet = self.bet as i128;
        if k == 0 {
            let next = balance - bet;
            i64::MIN as i128 <= next && next <= i64::MAX as i128 && self.losses < 255
        } else {
            let gain = if k == 1 {
                bet
            } else {
                bet + bet
            };
            let next = balance + gain;
            i64::MIN as i128 <= gain && gain <= i64::MAX as i128 && i64::MIN as i128 <= next
                && next <= i64::MAX as i128
        }
    }

    /// Whether `start_hand` stays within `i64`.
    pub fn start_fits_check(&self) -> (b: bool)
        ensures
            b == self.start_fits(),
    {
        if self.losses > 0 && self.losses % 2 == 0 {
            let doubled = (self.bet as i128) * 2;
            i64::MIN as i128 <= doubled && doubled <= i64::MAX as i128
        } else {
            true
        }
    }

    /// What `plan` makes of a shooter who rolled `r` times.
    fn payoff_of(&self, plan: Plan, r: i32) -> (k: u8)
        ensures
            k == self.payoff(plan, r as int),
            k <= 2,
    {
        match plan {
            Plan::Press => if 1 <= r && r <= 8 {
                0
            } else {
                2
            },
            Plan::Take => if 1 <= r && r <= 4 {
                0
            } else {
                1
            },
            Plan::TakeThenPress => if 1 <= r && r <= 4 {
                0
            } else if 5 <= r && r <= 8 {
                if self.bet == 8 {
                    1
                } else {
                    0
                }
            } else {
                if self.bet == 8 {
                    1
                } else {
                    2
                }
            },
        }
    }

    /// Settles the shooter who rolled `r` times, under `plan`.
    pub fn settle(&mut self, plan: Plan, r: i32)
        requires
            old(self).settle_fits(plan, r as int),
        ensures
            *final(self) == old(self).settled(plan, r as int),
    {
        let k = self.payoff_of(plan, r);
        if k == 0 {
            self.balance -= self.bet;
            self.losses += 1;
        } else if k == 1 {
            assert(1 * self.bet == self.bet);
            self.balance += self.bet;
            self.losses = 0;
        } else {
            assert(2 * self.bet == (k as int) * self.bet);
            self.balance += 2 * self.bet;
            self.losses = 0;
        }
    }

    /// Sets the bet for the next shooter.
    pub fn start_hand(&mut self)
        requires
            old(self).start_fits(),
        ensures
            *final(self) == old(self).started(),
    {
        if self.losses > 0 {
            if self.losses % 2 == 0 {
                self.bet = self.bet * 2;
            }
        } else {
            self.bet = 8;
        }
        if self.balance < -500 {
            self.maxed = true;
            self.bet = 0;
        }
    }
}

/// The most a progression bets after `losses` losing shooters in a row:
/// eight, doubled once for every two of them.
pub open spec fn bet_cap(losses: nat) -> int {
    8 * pow2(losses / 2) as int
}

/// What a run of `losses` losing shooters costs a progression that starts
/// it with a bet of eight: the sum of the capped bets lost.
pub open spec fn streak_loss(losses: nat) -> int
    decreases losses,
{
    if losses == 0 {
        0
    } else {
        streak_loss((losses - 1) as nat) + bet_cap((losses - 1) as nat)
    }
}

/// One more loss doubles the cap when it makes the count even.
proof fn lemma_bet_cap_step(losses: nat)
    ensures
        losses % 2 == 1 ==> bet_cap(losses + 1) == 2 * bet_cap(losses),
        losses % 2 == 0 ==> bet_cap(losses + 1) == bet_cap(losses),
        bet_cap(losses) >= 8,
{
    if losses % 2 == 1 {
        lemma_pow2_unfold(((losses + 1) / 2) as nat);
        assert(((losses + 1) / 2) as nat - 1 == losses / 2);
    }
    vstd::arithmetic::power2::lemma_pow2_pos(losses / 2);
}

/// A losing streak has cost two current bets less sixteen after an even
/// number of losses, and three after an odd number.
proof fn lemma_streak_loss(losses: nat)
    ensures
        losses % 2 == 0 ==> streak_loss(losses) == 2 * bet_cap(losses) - 16,
        losses % 2 == 1 ==> streak_loss(losses) == 3 * bet_cap(losses) - 16,
    decreases losses,
{
    lemma_bet_cap_step(losses);
    if losses == 0 {
        assert(pow2(0) == 1) by {
            vstd::arithmetic::power2::lemma2_to64();
        }
    } else {
        let l = (losses - 1) as nat;
        lemma_streak_loss(l);
        lemma_bet_cap_step(l);
    }
}

impl Progression {
    /// What holds of a progression in a game after `n` settled shooters:
    /// its losses are among them and its balance lies between -758 - 8n and
    /// 16n. While the game goes on it is either out (no bet, balance below
    /// -500) or in a losing streak of `losses` shooters that started at a
    /// bet of eight: its bet is the cap for that streak, its balance is at
    /// least -500, and the balance plus what the streak cost is at most 16n.
    pub open spec fn inv(self, n: nat, playing: bool) -> bool {
        &&& 0 <= self.bet
        &&& self.losses <= n
        &&& -758 - 8 * n <= self.balance <= 16 * n
        &&& playing ==> {
            ||| self.bet == 0 && self.balance < -500
            ||| {
                &&& self.bet == bet_cap(self.losses as nat)
                &&& self.balance >= -500
                &&& self.balance + streak_loss(self.losses as nat) <= 16 * n
            }
        }
    }
}

/// Settling a shooter and starting the next stays within the integer types
/// and keeps the progression's invariant, in a game with at most 99
/// settled shooters.
proof fn lemma_progression_step(p: Progression, plan: Plan, r: int, n: nat)
    requires
        p.inv(n, true),
        n <= 99,
    ensures
        p.settle_fits(plan, r),
        p.settled(plan, r).inv(n + 1, false),
        p.settled(plan, r).start_fits(),
        p.settled(plan, r).started().inv(n + 1, true),
{
    let l = p.losses as nat;
    lemma_bet_cap_step(l);
    lemma_bet_cap_step(0);
    lemma_streak_loss(l);
    lemma_streak_loss(l + 1);
    assert(streak_loss(l + 1) == streak_loss(l) + bet_cap(l));
    assert(pow2(0) == 1) by {
        vstd::arithmetic::power2::lemma2_to64();
    }
    assert(bet_cap(0) == 8);
    assert(streak_loss(0) == 0);
    let k = p.payoff(plan, r);
    assert(k == 0 || k == 1 || k == 2);
    let q = p.settled(plan, r);
    if p.bet != 0 {
        // In a streak: the bet is at most half of what the streak cost plus 8.
        assert(2 * p.bet <= streak_loss(l) + 16);
        assert(p.bet <= 8 * n + 258);
    }
    if k == 0 {
        assert(q.losses == p.losses + 1);
        assert(q.bet == p.bet);
    } else if k == 1 {
        assert(q.losses == 0);
        assert(q.balance == p.balance + p.bet);
    } else {
        assert(q.losses == 0);
        assert(q.balance == p.balance + 2 * p.bet);
    }
}

/// One simulated game of a hundred rolls (the last shooter finishes his
/// turn), played by ten strategies side by side.
pub struct GameSim {
    /// Covers the board for two rolls.
    pub board_two_rolls: i64,
    /// Bets the run, takes half back after the first run.
    pub press_half_run: i64,
    /// Bets one run.
    pub single_run: i64,
    /// Bets two runs.
    pub double_run: i64,
    /// Covers the board for one roll.
    pub board_single_roll: i64,
    /// Bets the run and presses it once.
    pub run_single_press: i64,
    /// Bets hard 6 and hard 8 on every roll.
    pub hard_six_eight: i64,
    pub press: Progression,
    pub take: Progression,
    pub take_then_press: Progression,
    /// Rolls left in the game; the last shooter rolls past zero.
    pub hands: i32,
    /// The current shooter's hit count.
    pub runs: u8,
    /// The current shooter's rolls so far.
    pub rounds: i32,
    /// The last shooter has sevened out with no rolls left.
    pub finished: bool,
    /// How many times each finished shooter rolled.
    pub shooter_rolls: Vec<i32>,
}

/// What a `GameSim` holds, with the shooters' roll counts as a sequence.
pub struct GameView {
    pub board_two_rolls: i64,
    pub press_half_run: i64,
    pub single_run: i64,
    pub double_run: i64,
    pub board_single_roll: i64,
    pub run_single_press: i64,
    pub hard_six_eight: i64,
    pub press: Progression,
    pub take: Progression,
    pub take_then_press: Progression,
    pub hands: i32,
    pub runs: u8,
    pub rounds: i32,
    pub finished: bool,
    pub shooter_rolls: Seq<i32>,
}

impl View for GameSim {
    type V = GameView;

    open spec fn view(&self) -> GameView {
        GameView {
            board_two_rolls: self.board_two_rolls,
            press_half_run: self.press_half_run,
            single_run: self.single_run,
            double_run: self.double_run,
            board_single_roll: self.board_single_roll,
            run_single_press: self.run_single_press,
            hard_six_eight: self.hard_six_eight,
            press: self.press,
            take: self.take,
            take_then_press: self.take_then_press,
            hands: self.hands,
            runs: self.runs,
            rounds: self.rounds,
            finished: self.finished,
            shooter_rolls: self.shooter_rolls@,
        }
    }
}

impl GameView {
    /// The hit count is one that the rules reach.
    pub open spec fn wf(self) -> bool {
        self.runs < 24
    }

    /// What holds of a game reached from a new one by rolls: fewer than a
    /// hundred shooters settled while it goes on and one to a hundred when
    /// it is over (with no rolls left), each fixed strategy within 90 per settled shooter of zero,
    /// and each progression within its invariant.
    pub open spec fn inv(self) -> bool {
        let n = self.shooter_rolls.len();
        &&& self.runs < 24
        &&& self.rounds >= 0
        &&& !self.finished ==> n + self.rounds <= 100 - self.hands && n <= 99
        &&& self.finished ==> 1 <= n <= 100 - self.hands && n <= 100 && self.hands <= 0
        &&& -90 * n <= self.board_two_rolls <= 90 * n
        &&& -90 * n <= self.press_half_run <= 90 * n
        &&& -90 * n <= self.single_run <= 90 * n
        &&& -90 * n <= self.double_run <= 90 * n
        &&& -90 * n <= self.board_single_roll <= 90 * n
        &&& -90 * n <= self.run_single_press <= 90 * n
        &&& self.press.inv(n, !self.finished)
        &&& self.take.inv(n, !self.finished)
        &&& self.take_then_press.inv(n, !self.finished)
    }

    /// The counters that grow without bound over a long shooter (his roll
    /// count, the rolls left, and the hard 6 / hard 8 balance) stay within
    /// their types on the next roll.
    pub open spec fn counters_fit(self, dice: Dice) -> bool {
        &&& in_i64(self.hard_six_eight + hard_six_eight_return(self.runs, dice))
        &&& self.rounds < i32::MAX
        &&& self.hands > i32::MIN
    }

    /// The next roll keeps every counter and balance within its type.
    pub open spec fn roll_fits(self, dice: Dice) -> bool {
        &&& self.counters_fit(dice)
        &&& ends_shooter(self.runs, dice) ==> {
            &&& in_i64(self.board_two_rolls + board_two_rolls_return(self.rounds + 1))
            &&& in_i64(self.press_half_run + press_half_run_return(self.rounds + 1))
            &&& in_i64(self.single_run + single_run_return(self.rounds + 1))
            &&& in_i64(self.double_run + double_run_return(self.rounds + 1))
            &&& in_i64(self.board_single_roll + board_single_roll_return(self.rounds + 1))
            &&& in_i64(self.run_single_press + run_single_press_return(self.rounds + 1))
            &&& self.press.settle_fits(Plan::Press, self.rounds + 1)
            &&& self.take.settle_fits(Plan::Take, self.rounds + 1)
            &&& self.take_then_press.settle_fits(Plan::TakeThenPress, self.rounds + 1)
            &&& self.hands - 1 > 0 ==> {
                &&& self.press.settled(Plan::Press, self.rounds + 1).start_fits()
                &&& self.take.settled(Plan::Take, self.rounds + 1).start_fits()
                &&& self.take_then_press.settled(Plan::TakeThenPress, self.rounds + 1).start_fits()
            }
        }
    }

    /// The progression that `plan` names.
    pub open spec fn progression(self, plan: Plan) -> Progression {
        match plan {
            Plan::Press => self.press,
            Plan::Take => self.take,
            Plan::TakeThenPress => self.take_then_press,
        }
    }

    /// This game is reached from a new one by the valid rolls `ds`, each
    /// made on a game still going on and within the integer types.
    pub open spec fn replays(self, ds: Seq<Dice>) -> bool {
        &&& forall|i: int| 0 <= i < ds.len() ==> (#[trigger] ds[i]).valid()
        &&& forall|k: int|
            0 <= k < ds.len() ==> !(#[trigger] replay(ds.take(k))).finished && replay(
                ds.take(k),
            ).roll_fits(ds[k])
        &&& replay(ds) == self
    }

    /// The game is reached from a new one by valid rolls.
    pub open spec fn reached(self) -> bool {
        exists|ds: Seq<Dice>| self.replays(ds)
    }

    /// The game was played to its end from a new one by valid rolls, one
    /// for each of its rolls: a hundred rolls or more.
    pub open spec fn played(self) -> bool {
        &&& self.finished
        &&& exists|ds: Seq<Dice>| self.replays(ds) && ds.len() == 100 - self.hands
    }
}

/// A new game: a hundred rolls to play, every balance at zero, every
/// progression betting eight on the first shooter.
pub open spec fn fresh_game() -> GameView {
    GameView {
        board_two_rolls: 0,
        press_half_run: 0,
        single_run: 0,
        double_run: 0,
        board_single_roll: 0,
        run_single_press: 0,
        hard_six_eight: 0,
        press: Progression { balance: 0, bet: 8, losses: 0, maxed: false },
        take: Progression { balance: 0, bet: 8, losses: 0, maxed: false },
        take_then_press: Progression { balance: 0, bet: 8, losses: 0, maxed: false },
        hands: 100,
        runs: 0,
        rounds: 0,
        finished: false,
        shooter_rolls: Seq::empty(),
    }
}

/// One roll of the game. A roll that does not end the shooter counts a hit
/// or not and pays the hard 6 / hard 8 strategy; one that does settles every
/// strategy on the shooter's roll count and records it, and then either
/// ends the game (no rolls left) or brings out the next shooter with fresh
/// counts and new progression bets.
pub open spec fn game_step(g: GameView, dice: Dice) -> GameView {
    let r = g.rounds + 1;
    let hard = (g.hard_six_eight + hard_six_eight_return(g.runs, dice)) as i64;
    let hands = (g.hands - 1) as i32;
    if !ends_shooter(g.runs, dice) {
        GameView {
            hard_six_eight: hard,
            hands: hands,
            runs: hits_after(g.runs, dice) as u8,
            rounds: r as i32,
            ..g
        }
    } else {
        let settled = GameView {
            board_two_rolls: (g.board_two_rolls + board_two_rolls_return(r)) as i64,
            press_half_run: (g.press_half_run + press_half_run_return(r)) as i64,
            single_run: (g.single_run + single_run_return(r)) as i64,
            double_run: (g.double_run + double_run_return(r)) as i64,
            board_single_roll: (g.board_single_roll + board_single_roll_return(r)) as i64,
            run_single_press: (g.run_single_press + run_single_press_return(r)) as i64,
            hard_six_eight: hard,
            press: g.press.settled(Plan::Press, r),
            take: g.take.settled(Plan::Take, r),
            take_then_press: g.take_then_press.settled(Plan::TakeThenPress, r),
            hands: hands,
            shooter_rolls: g.shooter_rolls.push(r as i32),
            ..g
        };
        if g.hands - 1 <= 0 {
            GameView {
                runs: hits_after(g.runs, dice) as u8,
                rounds: r as i32,
                finished: true,
                ..settled
            }
        } else {
            GameView {
                runs: 0,
                rounds: 0,
                press: settled.press.started(),
                take: settled.take.started(),
                take_then_press: settled.take_then_press.started(),
                ..settled
            }
        }
    }
}

/// The game after the rolls `ds`, from a new one.
pub open spec fn replay(ds: Seq<Dice>) -> GameView
    decreases ds.len(),
{
    if ds.len() == 0 {
        fresh_game()
    } else {
        game_step(replay(ds.drop_last()), ds.last())
    }
}

/// A roll within the integer types keeps the invariant of a game that
/// goes on.
pub proof fn lemma_step_keeps_inv(g: GameView, dice: Dice)
    requires
        g.inv(),
        !g.finished,
        g.roll_fits(dice),
    ensures
        game_step(g, dice).inv(),
{
    crate::rules::lemma_hits_stay_below_grand_slam(g.runs, dice);
    let n = g.shooter_rolls.len();
    lemma_progression_step(g.press, Plan::Press, g.rounds + 1, n);
    lemma_progression_step(g.take, Plan::Take, g.rounds + 1, n);
    lemma_progression_step(g.take_then_press, Plan::TakeThenPress, g.rounds + 1, n);
}

impl GameSim {
    /// The hit count is one that the rules reach.
    pub open spec fn wf(self) -> bool {
        self@.wf()
    }

    /// See `GameView::inv`.
    pub open spec fn inv(self) -> bool {
        self@.inv()
    }

    /// See `GameView::counters_fit`.
    pub open spec fn counters_fit(self, dice: Dice) -> bool {
        self@.counters_fit(dice)
    }

    /// See `GameView::roll_fits`.
    pub open spec fn roll_fits(self, dice: Dice) -> bool {
        self@.roll_fits(dice)
    }

    /// A new game: a hundred rolls to play, every balance at zero, every
    /// progression betting eight on the first shooter.
    pub fn new() -> (g: GameSim)
        ensures
            g.wf(),
            g.board_two_rolls == 0,
            g.press_half_run == 0,
            g.single_run == 0,
            g.double_run == 0,
            g.board_single_roll == 0,
            g.run_single_press == 0,
            g.hard_six_eight == 0,
            g.press == (Progression { balance: 0, bet: 8, losses: 0, maxed: false }),
            g.take == (Progression { balance: 0, bet: 8, losses: 0, maxed: false }),
            g.take_then_press == (Progression { balance: 0, bet: 8, losses: 0, maxed: false }),
            g.hands == 100,
            g.runs == 0,
            g.rounds == 0,
            !g.finished,
            g.shooter_rolls@ == Seq::<i32>::empty(),
            g@ == fresh_game(),
            g.inv(),
    {
        proof {
            lemma_bet_cap_step(0);
            assert(pow2(0) == 1) by {
                vstd::arithmetic::power2::lemma2_to64();
            }
        }
        let mut press = Progression::new();
        let mut take = Progression::new();
        let mut take_then_press = Progression::new();
        press.start_hand();
        take.start_hand();
        take_then_press.start_hand();
        GameSim {
            board_two_rolls: 0,
            press_half_run: 0,
            single_run: 0,
            double_run: 0,
            board_single_roll: 0,
            run_single_press: 0,
            hard_six_eight: 0,
            press,
            take,
            take_then_press,
            hands: 100,
            runs: 0,
            rounds: 0,
            finished: false,
            shooter_rolls: Vec::new(),
        }
    }

    /// Whether the next roll keeps every counter and balance within its
    /// type.
    pub fn roll_fits_check(&self, dice: Dice) -> (b: bool)
        requires
            self.wf(),
        ensures
            b == self.roll_fits(dice),
    {
        let out = hand(self.runs, dice);
        let table = out.0;
        assert(table.at(Spot::Hard6) == multiplier(self.runs, dice, Spot::Hard6));
        assert(table.at(Spot::Hard8) == multiplier(self.runs, dice, Spot::Hard8));
        assert(table.at(Spot::Seven) == multiplier(self.runs, dice, Spot::Seven));
        let mut gain: i128 = 0;
        if table.hard6 > 1 {
            gain = gain + 75;
        }
        if table.hard8 > 1 {
            gain = gain + 75;
        }
        let ends = table.seven > 0;
        if ends {
            gain = gain - 30;
        }
        let hard = self.hard_six_eight as i128 + gain;
        if !(i64::MIN as i128 <= hard && hard <= i64::MAX as i128) {
            return false;
        }
        if !(self.rounds < i32::MAX && self.hands > i32::MIN) {
            return false;
        }
        if !ends {
            return true;
        }
        let r = self.rounds + 1;
        if !(flat_fits(self.board_two_rolls, board_two_rolls_of(r)) && flat_fits(
            self.press_half_run,
            press_half_run_of(r),
        ) && flat_fits(self.single_run, single_run_of(r)) && flat_fits(
            self.double_run,
            double_run_of(r),
        ) && flat_fits(self.board_single_roll, board_single_roll_of(r)) && flat_fits(
            self.run_single_press,
            run_single_press_of(r),
        )) {
            return false;
        }
        if !(self.press.settle_fits_check(Plan::Press, r) && self.take.settle_fits_check(
            Plan::Take,
            r,
        ) && self.take_then_press.settle_fits_check(Plan::TakeThenPress, r)) {
            return false;
        }
        if self.hands - 1 > 0 {
            let mut press = self.press;
            let mut take = self.take;
            let mut take_then_press = self.take_then_press;
            press.settle(Plan::Press, r);
            take.settle(Plan::Take, r);
            take_then_press.settle(Plan::TakeThenPress, r);
            press.start_fits_check() && take.start_fits_check()
                && take_then_press.start_fits_check()
        } else {
            true
        }
    }

    /// Plays one roll of the game. When it sevens out, every strategy is
    /// settled on the shooter's roll count and, with rolls left, the next
    /// shooter comes out with fresh counts and new progression bets.
    /// Returns whether the game is over.
    pub fn roll(&mut self, dice: Dice) -> (over: bool)
        requires
            old(self).wf(),
            !old(self).finished,
            old(self).roll_fits(dice),
        ensures
            final(self)@ == game_step(old(self)@, dice),
            over == final(self).finished,
            final(self).wf(),
            old(self).inv() ==> final(self).inv(),
    {
        let out = hand(self.runs, dice);
        let winning_table = out.0;
        assert(winning_table.at(Spot::Hard6) == multiplier(self.runs, dice, Spot::Hard6));
        assert(winning_table.at(Spot::Hard8) == multiplier(self.runs, dice, Spot::Hard8));
        assert(winning_table.at(Spot::Seven) == multiplier(self.runs, dice, Spot::Seven));
        let ghost before = self@;
        proof {
            crate::rules::lemma_hits_stay_below_grand_slam(self.runs, dice);
            if self.inv() {
                lemma_step_keeps_inv(before, dice);
            }
        }
        self.runs = out.1;
        if winning_table.hard6 > 1 {
            self.hard_six_eight += 75;
        }
        if winning_table.hard8 > 1 {
            self.hard_six_eight += 75;
        }
        let out_of_shooter = winning_table.seven > 0;
        if out_of_shooter {
            self.hard_six_eight -= 30;
        }
        self.rounds += 1;
        self.hands -= 1;
        if !out_of_shooter {
            return false;
        }
        let r = self.rounds;
        self.board_two_rolls += board_two_rolls_of(r);
        self.press_half_run += press_half_run_of(r);
        self.single_run += single_run_of(r);
        self.double_run += double_run_of(r);
        self.board_single_roll += board_single_roll_of(r);
        self.run_single_press += run_single_press_of(r);
        self.press.settle(Plan::Press, r);
        self.take.settle(Plan::Take, r);
        self.take_then_press.settle(Plan::TakeThenPress, r);
        self.shooter_rolls.push(r);
        if self.hands > 0 {
            self.runs = 0;
            self.rounds = 0;
            self.press.start_hand();
            self.take.start_hand();
            self.take_then_press.start_hand();
            false
        } else {
            self.finished = true;
            true
        }
    }
}

/// In a game reached from `new`, the next roll fits wherever the counters
/// that grow with a long shooter fit: every progression bet, balance and
/// loss count stays within its type on its own.
pub proof fn lemma_roll_fits_within_counters(g: GameSim, dice: Dice)
    requires
        g.inv(),
        !g.finished,
        g.counters_fit(dice),
    ensures
        g.roll_fits(dice),
{
    let n = g.shooter_rolls@.len();
    lemma_progression_step(g.press, Plan::Press, g.rounds + 1, n);
    lemma_progression_step(g.take, Plan::Take, g.rounds + 1, n);
    lemma_progression_step(g.take_then_press, Plan::TakeThenPress, g.rounds + 1, n);
}

impl GameSim {
    /// Whether the counters that grow with a long shooter fit on the next
    /// roll.
    pub fn counters_fit_check(&self, dice: Dice) -> (b: bool)
        requires
            self.wf(),
        ensures
            b == self.counters_fit(dice),
    {
        let out = hand(self.runs, dice);
        let table = out.0;
        assert(table.at(Spot::Hard6) == multiplier(self.runs, dice, Spot::Hard6));
        assert(table.at(Spot::Hard8) == multiplier(self.runs, dice, Spot::Hard8));
        assert(table.at(Spot::Seven) == multiplier(self.runs, dice, Spot::Seven));
        let mut gain: i128 = 0;
        if table.hard6 > 1 {
            gain = gain + 75;
        }
        if table.hard8 > 1 {
            gain = gain + 75;
        }
        if table.seven > 0 {
            gain = gain - 30;
        }
        let hard = self.hard_six_eight as i128 + gain;
        i64::MIN as i128 <= hard && hard <= i64::MAX as i128 && self.rounds < i32::MAX
            && self.hands > i32::MIN
    }

    /// Plays one game with dice from `Dice::roll`. Returns the finished
    /// game, played from a new one roll by roll with real dice; or the game
    /// so far and the roll that would take one of the counters that grow
    /// with a long shooter out of its type.
    pub fn play() -> (r: Result<GameSim, (GameSim, Dice)>)
        ensures
            r matches Ok(g) ==> g@.played() && g.inv(),
            r matches Err((g, d)) ==> g@.reached() && !g.finished && d.valid()
                && !g.counters_fit(d),
    {
        let mut g = GameSim::new();
        let ghost mut ds: Seq<Dice> = Seq::empty();
        proof {
            assert(replay(ds) == fresh_game());
            assert(g@.replays(ds));
        }
        loop
            invariant
                g.inv(),
                !g.finished,
                g@.replays(ds),
                g.hands == 100 - ds.len(),
            decreases g.hands - i32::MIN,
        {
            let dice = Dice::roll();
            if !g.counters_fit_check(dice) {
                proof {
                    assert(g@.reached());
                }
                return Err((g, dice));
            }
            proof {
                lemma_roll_fits_within_counters(g, dice);
            }
            let ghost before = g@;
            let over = g.roll(dice);
            proof {
                let next = ds.push(dice);
                assert(next.drop_last() =~= ds);
                assert(next.take(ds.len() as int) =~= ds);
                assert forall|i: int| 0 <= i < next.len() implies (#[trigger] next[i]).valid() by {
                    if i < ds.len() {
                        assert(next[i] == ds[i]);
                    }
                }
                assert forall|k: int| 0 <= k < next.len() implies !(#[trigger] replay(
                    next.take(k),
                )).finished && replay(next.take(k)).roll_fits(next[k]) by {
                    if k < ds.len() {
                        assert(next.take(k) =~= ds.take(k));
                        assert(next[k] == ds[k]);
                        assert(!replay(ds.take(k)).finished);
                    }
                }
                assert(replay(next) == g@);
                ds = next;
            }
            if over {
                return Ok(g);
            }
        }
    }
}

/// Whether `balance + change` stays within `i64`.
fn flat_fits(balance: i64, change: i64) -> (b: bool)
    ensures
        b == in_i64(balance + change),
{
    let sum = balance as i128 + change as i128;
    i64::MIN as i128 <= sum && sum <= i64::MAX as i128
}

fn board_two_rolls_of(r: i32) -> (v: i64)
    ensures
        v == board_two_rolls_return(r as int),
{
    if r == 1 {
        -30
    } else if r == 2 {
        -25
    } else {
        10
    }
}

fn press_half_run_of(r: i32) -> (v: i64)
    ensures
        v == press_half_run_return(r as int),
{
    if 1 <= r && r <= 4 {
        -30
    } else if 5 <= r && r <= 8 {
        -15
    } else {
        75
    }
}

fn single_run_of(r: i32) -> (v: i64)
    ensures
        v == single_run_return(r as int),
{
    if 1 <= r && r <= 4 {
        -30
    } else {
        30
    }
}

fn double_run_of(r: i32) -> (v: i64)
    ensures
        v == double_run_return(r as int),
{
    if 1 <= r && r <= 4 {
        -30
    } else if 5 <= r && r <= 8 {
        0
    } else {
        60
    }
}

fn board_single_roll_of(r: i32) -> (v: i64)
    ensures
        v == board_single_roll_return(r as int),
{
    if r == 1 {
        -30
    } else {
        5
    }
}

fn run_single_press_of(r: i32) -> (v: i64)
    ensures
        v == run_single_press_return(r as int),
{
    if 1 <= r && r <= 8 {
        -30
    } else {
        90
    }
}

/// How many of the results are wins (above zero).
pub open spec fn wins_in(results: Seq<i64>) -> nat
    decreases results.len(),
{
    if results.len() == 0 {
        0
    } else {
        wins_in(results.drop_last()) + if results.last() > 0 {
            1nat
        } else {
            0nat
        }
    }
}

/// The sum of the winning results.
pub open spec fn win_total(results: Seq<i64>) -> int
    decreases results.len(),
{
    if results.len() == 0 {
        0
    } else {
        win_total(results.drop_last()) + if results.last() > 0 {
            results.last() as int
        } else {
            0
        }
    }
}

/// The sum of the losing (zero or below) results.
pub open spec fn loss_total(results: Seq<i64>) -> int
    decreases results.len(),
{
    if results.len() == 0 {
        0
    } else {
        loss_total(results.drop_last()) + if results.last() > 0 {
            0
        } else {
            results.last() as int
        }
    }
}

/// One strategy's results over many games.
pub struct Tally {
    /// Games that ended above zero.
    pub wins: u64,
    /// The sum of the results of those games.
    pub win_sum: i64,
    /// The sum of the results of the other games.
    pub loss_sum: i64,
    /// Every game's result, in order.
    pub returns: Vec<i64>,
}

impl Tally {
    /// The counts and sums agree with the recorded results.
    pub open spec fn wf(self) -> bool {
        &&& self.wins == wins_in(self.returns@)
        &&& self.win_sum == win_total(self.returns@)
        &&& self.loss_sum == loss_total(self.returns@)
    }

    /// `next` is this tally with `result` recorded: a win when above zero,
    /// a loss otherwise.
    pub open spec fn recorded(self, next: Tally, result: i64) -> bool {
        &&& next.returns@ == self.returns@.push(result)
        &&& next.wins == self.wins + if result > 0 {
            1int
        } else {
            0
        }
        &&& next.win_sum == self.win_sum + if result > 0 {
            result as int
        } else {
            0
        }
        &&& next.loss_sum == self.loss_sum + if result > 0 {
            0
        } else {
            result as int
        }
    }

    /// Recording `result` stays within the integer types.
    pub open spec fn record_fits(self, result: i64) -> bool {
        if result > 0 {
            self.wins < u64::MAX && in_i64(self.win_sum + result)
        } else {
            in_i64(self.loss_sum + result)
        }
    }

    /// An empty tally.
    pub fn new() -> (t: Tally)
        ensures
            t.wf(),
            t.returns@ == Seq::<i64>::empty(),
    {
        Tally { wins: 0, win_sum: 0, loss_sum: 0, returns: Vec::new() }
    }

    /// Whether recording `result` stays within the integer types.
    pub fn record_fits_check(&self, result: i64) -> (b: bool)
        ensures
            b == self.record_fits(result),
    {
        if result > 0 {
            self.wins < u64::MAX && flat_fits(self.win_sum, result)
        } else {
            flat_fits(self.loss_sum, result)
        }
    }

    /// Records one game's result: a win when above zero, a loss otherwise.
    pub fn record(&mut self, result: i64)
        requires
            old(self).record_fits(result),
        ensures
            old(self).recorded(*final(self), result),
            old(self).wf() ==> final(self).wf(),
    {
        if result > 0 {
            self.wins += 1;
            self.win_sum += result;
        } else {
            self.loss_sum += result;
        }
        let ghost before = self.returns@;
        self.returns.push(result);
        proof {
            assert(self.returns@.drop_last() =~= before);
        }
    }
}

/// Every result lies within 9000 of zero.
pub open spec fn results_within(results: Seq<i64>) -> bool {
    forall|i: int| 0 <= i < results.len() ==> -9000 <= #[trigger] results[i] <= 9000
}

/// In how many of the games `plan`'s progression reached its loss limit.
pub open spec fn maxed_in(gs: Seq<GameView>, plan: Plan) -> nat
    decreases gs.len(),
{
    if gs.len() == 0 {
        0
    } else {
        maxed_in(gs.drop_last(), plan) + if gs.last().progression(plan).maxed {
            1nat
        } else {
            0nat
        }
    }
}

/// Why playing games stopped early.
pub enum SimStop {
    /// In this game, reached by real rolls, this roll would take a counter
    /// that grows with a long shooter out of its type.
    Counter(GameSim, Dice),
    /// Recording this played game would overflow a tally.
    Record(GameSim),
}

/// The results of the ten strategies over many games, and how often each
/// progression hit its loss limit.
pub struct SimTotals {
    pub board_two_rolls: Tally,
    pub press_half_run: Tally,
    pub single_run: Tally,
    pub double_run: Tally,
    pub board_single_roll: Tally,
    pub run_single_press: Tally,
    pub hard_six_eight: Tally,
    pub press: Tally,
    pub take: Tally,
    pub take_then_press: Tally,
    /// Games in which the press progression fell below -500.
    pub press_maxed: u64,
    /// Games in which the take progression fell below -500.
    pub take_maxed: u64,
    /// Games in which the take-then-press progression fell below -500.
    pub take_then_press_maxed: u64,
}

impl SimTotals {
    /// How many games have been recorded.
    pub open spec fn games(self) -> nat {
        self.board_two_rolls.returns@.len()
    }

    /// Every tally agrees with its results, and every tally has one result
    /// per recorded game.
    pub open spec fn wf(self) -> bool {
        &&& self.press_half_run.returns@.len() == self.games()
        &&& self.single_run.returns@.len() == self.games()
        &&& self.double_run.returns@.len() == self.games()
        &&& self.board_single_roll.returns@.len() == self.games()
        &&& self.run_single_press.returns@.len() == self.games()
        &&& self.hard_six_eight.returns@.len() == self.games()
        &&& self.press.returns@.len() == self.games()
        &&& self.take.returns@.len() == self.games()
        &&& self.take_then_press.returns@.len() == self.games()
        &&& self.press_maxed <= self.games()
        &&& self.take_maxed <= self.games()
        &&& self.take_then_press_maxed <= self.games()
        &&& self.board_two_rolls.wf()
        &&& self.press_half_run.wf()
        &&& self.single_run.wf()
        &&& self.double_run.wf()
        &&& self.board_single_roll.wf()
        &&& self.run_single_press.wf()
        &&& self.hard_six_eight.wf()
        &&& self.press.wf()
        &&& self.take.wf()
        &&& self.take_then_press.wf()
    }

    /// Every result of the nine strategies other than hard 6 / hard 8 lies
    /// within 9000 of zero, as every played game's do.
    pub open spec fn bounded(self) -> bool {
        &&& results_within(self.board_two_rolls.returns@)
        &&& results_within(self.press_half_run.returns@)
        &&& results_within(self.single_run.returns@)
        &&& results_within(self.double_run.returns@)
        &&& results_within(self.board_single_roll.returns@)
        &&& results_within(self.run_single_press.returns@)
        &&& results_within(self.press.returns@)
        &&& results_within(self.take.returns@)
        &&& results_within(self.take_then_press.returns@)
    }

    /// `next` is this record with the games `gs` recorded in order: each
    /// strategy's results extended by its final balance in each game, and
    /// each loss-limit count raised by the games in which its progression
    /// reached the limit.
    pub open spec fn extended_by(self, next: SimTotals, gs: Seq<GameView>) -> bool {
        &&& next.board_two_rolls.returns@ == self.board_two_rolls.returns@ + gs.map_values(
            |g: GameView| g.board_two_rolls,
        )
        &&& next.press_half_run.returns@ == self.press_half_run.returns@ + gs.map_values(
            |g: GameView| g.press_half_run,
        )
        &&& next.single_run.returns@ == self.single_run.returns@ + gs.map_values(
            |g: GameView| g.single_run,
        )
        &&& next.double_run.returns@ == self.double_run.returns@ + gs.map_values(
            |g: GameView| g.double_run,
        )
        &&& next.board_single_roll.returns@ == self.board_single_roll.returns@ + gs.map_values(
            |g: GameView| g.board_single_roll,
        )
        &&& next.run_single_press.returns@ == self.run_single_press.returns@ + gs.map_values(
            |g: GameView| g.run_single_press,
        )
        &&& next.hard_six_eight.returns@ == self.hard_six_eight.returns@ + gs.map_values(
            |g: GameView| g.hard_six_eight,
        )
        &&& next.press.returns@ == self.press.returns@ + gs.map_values(
            |g: GameView| g.press.balance,
        )
        &&& next.take.returns@ == self.take.returns@ + gs.map_values(|g: GameView| g.take.balance)
        &&& next.take_then_press.returns@ == self.take_then_press.returns@ + gs.map_values(
            |g: GameView| g.take_then_press.balance,
        )
        &&& next.press_maxed == self.press_maxed + maxed_in(gs, Plan::Press)
        &&& next.take_maxed == self.take_maxed + maxed_in(gs, Plan::Take)
        &&& next.take_then_press_maxed == self.take_then_press_maxed + maxed_in(
            gs,
            Plan::TakeThenPress,
        )
    }

    /// Recording `game` stays within the integer types.
    pub open spec fn record_fits(self, game: GameView) -> bool {
        &&& self.board_two_rolls.record_fits(game.board_two_rolls)
        &&& self.press_half_run.record_fits(game.press_half_run)
        &&& self.single_run.record_fits(game.single_run)
        &&& self.double_run.record_fits(game.double_run)
        &&& self.board_single_roll.record_fits(game.board_single_roll)
        &&& self.run_single_press.record_fits(game.run_single_press)
        &&& self.hard_six_eight.record_fits(game.hard_six_eight)
        &&& self.press.record_fits(game.press.balance)
        &&& self.take.record_fits(game.take.balance)
        &&& self.take_then_press.record_fits(game.take_then_press.balance)
        &&& game.press.maxed ==> self.press_maxed < u64::MAX
        &&& game.take.maxed ==> self.take_maxed < u64::MAX
        &&& game.take_then_press.maxed ==> self.take_then_press_maxed < u64::MAX
    }

    /// No games recorded.
    pub fn new() -> (t: SimTotals)
        ensures
            t.wf(),
            t.bounded(),
            t.games() == 0,
            t.board_two_rolls.returns@ == Seq::<i64>::empty(),
            t.press_half_run.returns@ == Seq::<i64>::empty(),
            t.single_run.returns@ == Seq::<i64>::empty(),
            t.double_run.returns@ == Seq::<i64>::empty(),
            t.board_single_roll.returns@ == Seq::<i64>::empty(),
            t.run_single_press.returns@ == Seq::<i64>::empty(),
            t.hard_six_eight.returns@ == Seq::<i64>::empty(),
            t.press.returns@ == Seq::<i64>::empty(),
            t.take.returns@ == Seq::<i64>::empty(),
            t.take_then_press.returns@ == Seq::<i64>::empty(),
            t.press_maxed == 0,
            t.take_maxed == 0,
            t.take_then_press_maxed == 0,
    {
        SimTotals {
            board_two_rolls: Tally::new(),
            press_half_run: Tally::new(),
            single_run: Tally::new(),
            double_run: Tally::new(),
            board_single_roll: Tally::new(),
            run_single_press: Tally::new(),
            hard_six_eight: Tally::new(),
            press: Tally::new(),
            take: Tally::new(),
            take_then_press: Tally::new(),
            press_maxed: 0,
            take_maxed: 0,
            take_then_press_maxed: 0,
        }
    }

    /// Whether recording `game` stays within the integer types.
    pub fn record_fits_check(&self, game: &GameSim) -> (b: bool)
        ensures
            b == self.record_fits(game@),
    {
        self.board_two_rolls.record_fits_check(game.board_two_rolls)
            && self.press_half_run.record_fits_check(game.press_half_run)
            && self.single_run.record_fits_check(game.single_run)
            && self.double_run.record_fits_check(game.double_run)
            && self.board_single_roll.record_fits_check(game.board_single_roll)
            && self.run_single_press.record_fits_check(game.run_single_press)
            && self.hard_six_eight.record_fits_check(game.hard_six_eight)
            && self.press.record_fits_check(game.press.balance)
            && self.take.record_fits_check(game.take.balance)
            && self.take_then_press.record_fits_check(game.take_then_press.balance)
            && (!game.press.maxed || self.press_maxed < u64::MAX)
            && (!game.take.maxed || self.take_maxed < u64::MAX)
            && (!game.take_then_press.maxed || self.take_then_press_maxed < u64::MAX)
    }

    /// Records the final balances of a game, and which progressions hit
    /// their loss limit in it.
    pub fn record_game(&mut self, game: &GameSim)
        requires
            old(self).record_fits(game@),
        ensures
            old(self).wf() ==> final(self).wf(),
            old(self).bounded() && game.inv() && game.finished ==> final(self).bounded(),
            old(self).board_two_rolls.recorded(final(self).board_two_rolls, game.board_two_rolls),
            old(self).press_half_run.recorded(final(self).press_half_run, game.press_half_run),
            old(self).single_run.recorded(final(self).single_run, game.single_run),
            old(self).double_run.recorded(final(self).double_run, game.double_run),
            old(self).board_single_roll.recorded(
                final(self).board_single_roll,
                game.board_single_roll,
            ),
            old(self).run_single_press.recorded(final(self).run_single_press, game.run_single_press),
            old(self).hard_six_eight.recorded(final(self).hard_six_eight, game.hard_six_eight),
            old(self).press.recorded(final(self).press, game.press.balance),
            old(self).take.recorded(final(self).take, game.take.balance),
            old(self).take_then_press.recorded(
                final(self).take_then_press,
                game.take_then_press.balance,
            ),
            final(self).press_maxed == old(self).press_maxed + if game.press.maxed {
                1int
            } else {
                0
            },
            final(self).take_maxed == old(self).take_maxed + if game.take.maxed {
                1int
            } else {
                0
            },
            final(self).take_then_press_maxed == old(self).take_then_press_maxed
                + if game.take_then_press.maxed {
                1int
            } else {
                0
            },
    {
        self.board_two_rolls.record(game.board_two_rolls);
        self.press_half_run.record(game.press_half_run);
        self.single_run.record(game.single_run);
        self.double_run.record(game.double_run);
        self.board_single_roll.record(game.board_single_roll);
        self.run_single_press.record(game.run_single_press);
        self.hard_six_eight.record(game.hard_six_eight);
        self.press.record(game.press.balance);
        self.take.record(game.take.balance);
        if game.press.maxed {
            self.press_maxed += 1;
        }
        if game.take.maxed {
            self.take_maxed += 1;
        }
        if game.take_then_press.maxed {
            self.take_then_press_maxed += 1;
        }
        self.take_then_press.record(game.take_then_press.balance);
    }
}

impl SimTotals {
    /// Plays and records `count` games with dice from `Dice::roll`: the
    /// games recorded were each played from a new game roll by roll with
    /// real dice. Stops early, with the game and roll at fault, when a game
    /// would take one of the counters that grow with a long shooter out of
    /// its type, or when recording a played game would overflow a tally.
    pub fn play_games(&mut self, count: u64) -> (r: Result<(), SimStop>)
        requires
            old(self).wf(),
        ensures
            final(self).wf(),
            old(self).bounded() ==> final(self).bounded(),
            exists|gs: Seq<GameView>|
                {
                    &&& gs.len() == final(self).games() - old(self).games()
                    &&& forall|i: int| 0 <= i < gs.len() ==> (#[trigger] gs[i]).played()
                    &&& old(self).extended_by(*final(self), gs)
                },
            r is Ok ==> final(self).games() == old(self).games() + count,
            r is Err ==> final(self).games() < old(self).games() + count,
            r matches Err(SimStop::Counter(g, d)) ==> g@.reached() && !g.finished && d.valid()
                && !g.counters_fit(d),
            r matches Err(SimStop::Record(g)) ==> g@.played() && !final(self).record_fits(g@),
    {
        let ghost start = *self;
        let ghost mut gs: Seq<GameView> = Seq::empty();
        proof {
            assert(start.extended_by(*self, gs)) by {
                assert(self.board_two_rolls.returns@ =~= self.board_two_rolls.returns@ + gs.map_values(|g: GameView| g.board_two_rolls));
                assert(self.press_half_run.returns@ =~= self.press_half_run.returns@ + gs.map_values(|g: GameView| g.press_half_run));
                assert(self.single_run.returns@ =~= self.single_run.returns@ + gs.map_values(|g: GameView| g.single_run));
                assert(self.double_run.returns@ =~= self.double_run.returns@ + gs.map_values(|g: GameView| g.double_run));
                assert(self.board_single_roll.returns@ =~= self.board_single_roll.returns@ + gs.map_values(|g: GameView| g.board_single_roll));
                assert(self.run_single_press.returns@ =~= self.run_single_press.returns@ + gs.map_values(|g: GameView| g.run_single_press));
                assert(self.hard_six_eight.returns@ =~= self.hard_six_eight.returns@ + gs.map_values(|g: GameView| g.hard_six_eight));
                assert(self.press.returns@ =~= self.press.returns@ + gs.map_values(|g: GameView| g.press.balance));
                assert(self.take.returns@ =~= self.take.returns@ + gs.map_values(|g: GameView| g.take.balance));
                assert(self.take_then_press.returns@ =~= self.take_then_press.returns@ + gs.map_values(|g: GameView| g.take_then_press.balance));
            }
        }
        let mut i: u64 = 0;
        while i < count
            invariant
                i <= count,
                self.wf(),
                start.wf(),
                start == *old(self),
                start.bounded() ==> self.bounded(),
                self.games() == start.games() + i,
                gs.len() == i,
                forall|j: int| 0 <= j < gs.len() ==> (#[trigger] gs[j]).played(),
                start.extended_by(*self, gs),
            decreases count - i,
        {
            match GameSim::play() {
                Err((game, dice)) => {
                    return Err(SimStop::Counter(game, dice));
                },
                Ok(game) => {
                    if !self.record_fits_check(&game) {
                        return Err(SimStop::Record(game));
                    }
                    let ghost before = *self;
                    self.record_game(&game);
                    proof {
                        let next = gs.push(game@);
                        assert forall|j: int| 0 <= j < next.len() implies (#[trigger] next[j]).played() by {
                            if j < gs.len() {
                                assert(next[j] == gs[j]);
                            }
                        }
                        lemma_extend_one(start, before, *self, gs, game@);
                        gs = next;
                    }
                },
            }
            i += 1;
        }
        Ok(())
    }
}

/// Recording one more game after the games `gs` extends the record by
/// `gs` and that game.
proof fn lemma_extend_one(
    start: SimTotals,
    before: SimTotals,
    after: SimTotals,
    gs: Seq<GameView>,
    g: GameView,
)
    requires
        start.extended_by(before, gs),
        before.board_two_rolls.recorded(after.board_two_rolls, g.board_two_rolls),
        before.press_half_run.recorded(after.press_half_run, g.press_half_run),
        before.single_run.recorded(after.single_run, g.single_run),
        before.double_run.recorded(after.double_run, g.double_run),
        before.board_single_roll.recorded(after.board_single_roll, g.board_single_roll),
        before.run_single_press.recorded(after.run_single_press, g.run_single_press),
        before.hard_six_eight.recorded(after.hard_six_eight, g.hard_six_eight),
        before.press.recorded(after.press, g.press.balance),
        before.take.recorded(after.take, g.take.balance),
        before.take_then_press.recorded(after.take_then_press, g.take_then_press.balance),
        after.press_maxed == before.press_maxed + if g.press.maxed {
            1int
        } else {
            0
        },
        after.take_maxed == before.take_maxed + if g.take.maxed {
            1int
        } else {
            0
        },
        after.take_then_press_maxed == before.take_then_press_maxed + if g.take_then_press.maxed {
            1int
        } else {
            0
        },
    ensures
        start.extended_by(after, gs.push(g)),
{
    let next = gs.push(g);
    assert(next.drop_last() =~= gs);
    assert(next.map_values(|v: GameView| v.board_two_rolls) =~= gs.map_values(|v: GameView| v.board_two_rolls).push(g.board_two_rolls));
    assert(next.map_values(|v: GameView| v.press_half_run) =~= gs.map_values(|v: GameView| v.press_half_run).push(g.press_half_run));
    assert(next.map_values(|v: GameView| v.single_run) =~= gs.map_values(|v: GameView| v.single_run).push(g.single_run));
    assert(next.map_values(|v: GameView| v.double_run) =~= gs.map_values(|v: GameView| v.double_run).push(g.double_run));
    assert(next.map_values(|v: GameView| v.board_single_roll) =~= gs.map_values(|v: GameView| v.board_single_roll).push(g.board_single_roll));
    assert(next.map_values(|v: GameView| v.run_single_press) =~= gs.map_values(|v: GameView| v.run_single_press).push(g.run_single_press));
    assert(next.map_values(|v: GameView| v.hard_six_eight) =~= gs.map_values(|v: GameView| v.hard_six_eight).push(g.hard_six_eight));
    assert(next.map_values(|v: GameView| v.press.balance) =~= gs.map_values(|v: GameView| v.press.balance).push(g.press.balance));
    assert(next.map_values(|v: GameView| v.take.balance) =~= gs.map_values(|v: GameView| v.take.balance).push(g.take.balance));
    assert(next.map_values(|v: GameView| v.take_then_press.balance) =~= gs.map_values(|v: GameView| v.take_then_press.balance).push(g.take_then_press.balance));
    assert(after.board_two_rolls.returns@ =~= start.board_two_rolls.returns@ + next.map_values(|v: GameView| v.board_two_rolls));
    assert(after.press_half_run.returns@ =~= start.press_half_run.returns@ + next.map_values(|v: GameView| v.press_half_run));
    assert(after.single_run.returns@ =~= start.single_run.returns@ + next.map_values(|v: GameView| v.single_run));
    assert(after.double_run.returns@ =~= start.double_run.returns@ + next.map_values(|v: GameView| v.double_run));
    assert(after.board_single_roll.returns@ =~= start.board_single_roll.returns@ + next.map_values(|v: GameView| v.board_single_roll));
    assert(after.run_single_press.returns@ =~= start.run_single_press.returns@ + next.map_values(|v: GameView| v.run_single_press));
    assert(after.hard_six_eight.returns@ =~= start.hard_six_eight.returns@ + next.map_values(|v: GameView| v.hard_six_eight));
    assert(after.press.returns@ =~= start.press.returns@ + next.map_values(|v: GameView| v.press.balance));
    assert(after.take.returns@ =~= start.take.returns@ + next.map_values(|v: GameView| v.take.balance));
    assert(after.take_then_press.returns@ =~= start.take_then_press.returns@ + next.map_values(|v: GameView| v.take_then_press.balance));
}

/// A progression below -500 bets nothing from the next shooter on, and its
/// balance then stays where it is for the rest of the game.
pub proof fn lemma_maxed_progression_stops(p: Progression, plan: Plan, r: int)
    requires
        p.balance < -500,
        p.start_fits(),
    ensures
        p.started().bet == 0,
        p.started().maxed,
        p.started().settled(plan, r).balance == p.balance,
        p.started().settled(plan, r).started().bet == 0,
{
}

/// After a winning shooter a progression not yet below -500 goes back to
/// a bet of eight.
pub proof fn lemma_win_resets_bet(p: Progression, k: int)
    requires
        1 <= k <= 2,
        in_i64(p.balance + k * p.bet),
        p.balance + k * p.bet >= -500,
    ensures
        p.won(k).started().bet == 8,
{
}

/// A game reached by rolls within the integer types keeps the invariant.
proof fn lemma_replay_inv(ds: Seq<Dice>)
    requires
        forall|k: int|
            0 <= k < ds.len() ==> !(#[trigger] replay(ds.take(k))).finished && replay(
                ds.take(k),
            ).roll_fits(ds[k]),
    ensures
        replay(ds).inv(),
    decreases ds.len(),
{
    if ds.len() == 0 {
        lemma_bet_cap_step(0);
        assert(pow2(0) == 1) by {
            vstd::arithmetic::power2::lemma2_to64();
        }
    } else {
        let prefix = ds.drop_last();
        assert forall|k: int| 0 <= k < prefix.len() implies !(#[trigger] replay(
            prefix.take(k),
        )).finished && replay(prefix.take(k)).roll_fits(prefix[k]) by {
            assert(prefix.take(k) =~= ds.take(k));
            assert(prefix[k] == ds[k]);
            assert(!replay(ds.take(k)).finished);
        }
        lemma_replay_inv(prefix);
        let last = ds.len() - 1;
        assert(ds.take(last) =~= prefix);
        assert(!replay(ds.take(last)).finished);
        lemma_step_keeps_inv(replay(prefix), ds.last());
    }
}

/// Every played game keeps the invariant: one to a hundred shooters, each
/// fixed strategy within 9000 of zero, each progression's balance between
/// -1558 and 1600.
pub proof fn lemma_played_inv(v: GameView)
    requires
        v.played(),
    ensures
        v.inv(),
        1 <= v.shooter_rolls.len() <= 100,
        -9000 <= v.board_two_rolls <= 9000,
        -9000 <= v.press_half_run <= 9000,
        -9000 <= v.single_run <= 9000,
        -9000 <= v.double_run <= 9000,
        -9000 <= v.board_single_roll <= 9000,
        -9000 <= v.run_single_press <= 9000,
        -1558 <= v.press.balance <= 1600,
        -1558 <= v.take.balance <= 1600,
        -1558 <= v.take_then_press.balance <= 1600,
        v.hands <= 0,
{
    let ds = choose|ds: Seq<Dice>| v.replays(ds) && ds.len() == 100 - v.hands;
    lemma_replay_inv(ds);
}

/// The counts of a results list and its sums, when every result lies
/// within 9000 of zero.
proof fn lemma_results_sums(rs: Seq<i64>)
    ensures
        wins_in(rs) <= rs.len(),
        results_within(rs) ==> 0 <= win_total(rs) <= 9000 * rs.len(),
        results_within(rs) ==> -9000 * rs.len() <= loss_total(rs) <= 0,
    decreases rs.len(),
{
    if rs.len() > 0 {
        let prefix = rs.drop_last();
        if results_within(rs) {
            assert forall|i: int| 0 <= i < prefix.len() implies -9000 <= #[trigger] prefix[i]
                <= 9000 by {
                assert(prefix[i] == rs[i]);
            }
            assert(-9000 <= rs[rs.len() - 1] <= 9000);
        }
        lemma_results_sums(prefix);
    }
}

/// Each strategy's win count and each loss-limit count is at most the
/// number of games recorded, so every reported percentage lies between 0
/// and 100.
pub proof fn lemma_counts_within_games(t: SimTotals)
    requires
        t.wf(),
    ensures
        t.board_two_rolls.wins <= t.games(),
        t.press_half_run.wins <= t.games(),
        t.single_run.wins <= t.games(),
        t.double_run.wins <= t.games(),
        t.board_single_roll.wins <= t.games(),
        t.run_single_press.wins <= t.games(),
        t.hard_six_eight.wins <= t.games(),
        t.press.wins <= t.games(),
        t.take.wins <= t.games(),
        t.take_then_press.wins <= t.games(),
        t.press_maxed <= t.games(),
        t.take_maxed <= t.games(),
        t.take_then_press_maxed <= t.games(),
{
    lemma_results_sums(t.board_two_rolls.returns@);
    lemma_results_sums(t.press_half_run.returns@);
    lemma_results_sums(t.single_run.returns@);
    lemma_results_sums(t.double_run.returns@);
    lemma_results_sums(t.board_single_roll.returns@);
    lemma_results_sums(t.run_single_press.returns@);
    lemma_results_sums(t.hard_six_eight.returns@);
    lemma_results_sums(t.press.returns@);
    lemma_results_sums(t.take.returns@);
    lemma_results_sums(t.take_then_press.returns@);
}

/// Recording a played game overflows nothing but, possibly, the hard 6 /
/// hard 8 sums, as long as fewer than 2^40 games have been recorded: every
/// other strategy's results stay within 9000 of zero.
pub proof fn lemma_record_fits_below_limit(t: SimTotals, v: GameView)
    requires
        t.wf(),
        t.bounded(),
        t.games() < 0x100_0000_0000,
        v.played(),
        t.hard_six_eight.record_fits(v.hard_six_eight),
    ensures
        t.record_fits(v),
{
    lemma_played_inv(v);
    lemma_results_sums(t.board_two_rolls.returns@);
    lemma_results_sums(t.press_half_run.returns@);
    lemma_results_sums(t.single_run.returns@);
    lemma_results_sums(t.double_run.returns@);
    lemma_results_sums(t.board_single_roll.returns@);
    lemma_results_sums(t.run_single_press.returns@);
    lemma_results_sums(t.press.returns@);
    lemma_results_sums(t.take.returns@);
    lemma_results_sums(t.take_then_press.returns@);
}

/// How each progression settles a shooter who rolled `r` times: the press
/// loses its bet unless the shooter made two runs (9 rolls or more), then
/// wins twice its bet; the take loses unless he made a run (5 rolls or
/// more), then wins its bet; the take-then-press loses under 5 rolls, and
/// otherwise wins its bet when that is the first bet of eight, and when it
/// is a pressed bet loses under 9 rolls and wins twice it from 9 on. A
/// loss adds one to the losses; a win clears them.
pub proof fn lemma_progression_settlements(p: Progression, r: int)
    requires
        r >= 1,
        p.losses < 255,
        in_i64(p.balance - p.bet),
        in_i64(p.balance + 2 * p.bet),
        in_i64(p.balance + p.bet),
    ensures
        p.settled(Plan::Press, r) == if r <= 8 {
            Progression { balance: (p.balance - p.bet) as i64, losses: (p.losses + 1) as u8, ..p }
        } else {
            Progression { balance: (p.balance + 2 * p.bet) as i64, losses: 0, ..p }
        },
        p.settled(Plan::Take, r) == if r <= 4 {
            Progression { balance: (p.balance - p.bet) as i64, losses: (p.losses + 1) as u8, ..p }
        } else {
            Progression { balance: (p.balance + p.bet) as i64, losses: 0, ..p }
        },
        p.settled(Plan::TakeThenPress, r) == if r <= 4 || (r <= 8 && p.bet != 8) {
            Progression { balance: (p.balance - p.bet) as i64, losses: (p.losses + 1) as u8, ..p }
        } else if p.bet == 8 {
            Progression { balance: (p.balance + p.bet) as i64, losses: 0, ..p }
        } else {
            Progression { balance: (p.balance + 2 * p.bet) as i64, losses: 0, ..p }
        },
{
}

/// How a progression sets its next bet: nothing, for good, once its
/// balance is below -500; otherwise eight after a win (no losses), the same
/// bet after an odd number of losses, and twice the bet after an even one.
pub proof fn lemma_progression_start(p: Progression)
    requires
        in_i64(2 * p.bet),
    ensures
        p.balance < -500 ==> p.started().bet == 0 && p.started().maxed,
        p.balance >= -500 ==> p.started().bet == if p.losses == 0 {
            8
        } else if p.losses % 2 == 1 {
            p.bet as int
        } else {
            2 * p.bet
        },
        p.balance >= -500 ==> p.started().maxed == p.maxed,
        p.started().balance == p.balance,
        p.started().losses == p.losses,
{
}

/// What a seven-out on the shooter's `r`-th roll (r = rounds + 1) does to
/// the six fixed strategies and the hard 6 / hard 8 bettor: the two-roll
/// board loses 30 on one roll, 25 on two, and wins 10 from three on; the
/// half-pressed run loses 30 under five rolls, 15 from five to eight, and
/// wins 75 from nine; the single run loses 30 under five rolls and wins 30
/// from five; the double run loses 30 under five, breaks even from five to
/// eight, and wins 60 from nine; the one-roll board loses 30 on one roll
/// and wins 5 after; the pressed run loses 30 under nine and wins 90 from
/// nine; the hard 6 / hard 8 bettor loses 30. The roll count is recorded.
pub proof fn lemma_seven_out_settles(g: GameView, d: Dice)
    requires
        d.dice1 != d.dice2,
        d.total == 7,
        g.rounds >= 0,
        g.roll_fits(d),
    ensures
        ({
            let r = g.rounds + 1;
            let next = game_step(g, d);
            &&& next.board_two_rolls == g.board_two_rolls + if r == 1 {
                -30int
            } else if r == 2 {
                -25int
            } else {
                10int
            }
            &&& next.press_half_run == g.press_half_run + if r <= 4 {
                -30int
            } else if r <= 8 {
                -15int
            } else {
                75int
            }
            &&& next.single_run == g.single_run + if r <= 4 {
                -30int
            } else {
                30int
            }
            &&& next.double_run == g.double_run + if r <= 4 {
                -30int
            } else if r <= 8 {
                0int
            } else {
                60int
            }
            &&& next.board_single_roll == g.board_single_roll + if r == 1 {
                -30int
            } else {
                5int
            }
            &&& next.run_single_press == g.run_single_press + if r <= 8 {
                -30int
            } else {
                90int
            }
            &&& next.hard_six_eight == g.hard_six_eight - 30
            &&& next.shooter_rolls == g.shooter_rolls.push(r as i32)
            &&& next.hands == g.hands - 1
        }),
{
}

/// A roll of real dice that is not a seven-out pays the hard 6 / hard 8
/// bettor 75 for a hard 6 or a hard 8 and nothing otherwise, and leaves the
/// fixed strategies, the progressions and the finished shooters as they
/// were, while the shooter's roll count goes up by one.
pub proof fn lemma_hit_roll(g: GameView, d: Dice)
    requires
        d.valid(),
        !(d.dice1 != d.dice2 && d.total == 7),
        g.roll_fits(d),
    ensures
        ({
            let next = game_step(g, d);
            &&& next.hard_six_eight == g.hard_six_eight + if d.dice1 == d.dice2 && (d.total == 6
                || d.total == 8) {
                75int
            } else {
                0int
            }
            &&& next.board_two_rolls == g.board_two_rolls
            &&& next.press_half_run == g.press_half_run
            &&& next.single_run == g.single_run
            &&& next.double_run == g.double_run
            &&& next.board_single_roll == g.board_single_roll
            &&& next.run_single_press == g.run_single_press
            &&& next.press == g.press
            &&& next.take == g.take
            &&& next.take_then_press == g.take_then_press
            &&& next.shooter_rolls == g.shooter_rolls
            &&& next.rounds == g.rounds + 1
            &&& next.hands == g.hands - 1
        }),
{
}

/// Recording a game's result counts it a win exactly when it is above
/// zero (a result of zero is a loss) and adds it to that side's sum.
pub proof fn lemma_tally_record(t: Tally, next: Tally, result: i64)
    requires
        t.recorded(next, result),
    ensures
        result > 0 ==> next.wins == t.wins + 1 && next.win_sum == t.win_sum + result
            && next.loss_sum == t.loss_sum,
        result <= 0 ==> next.wins == t.wins && next.win_sum == t.win_sum && next.loss_sum
            == t.loss_sum + result,
        next.returns@.len() == t.returns@.len() + 1,
        next.returns@.last() == result,
{
}

} // verus!
