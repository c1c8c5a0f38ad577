use vstd::prelude::*;

use crate::dice::Dice;
use crate::player::Player;
use crate::table::{lemma_spot_cases, Spot, Table};

verus! {

/// Both dice show the same face.
pub open spec fn is_double(roll: Dice) -> bool {
    roll.dice1 == roll.dice2
}

/// A seven made of two different faces: the shooter is out.
pub open spec fn is_seven_out(roll: Dice) -> bool {
    !is_double(roll) && roll.total == 7
}

/// The hard-way spot that a double wins.
pub open spec fn hard_spot(roll: Dice) -> Option<Spot> {
    if !is_double(roll) {
        None
    } else {
        match roll.total {
            2 => Some(Spot::Hard2),
            4 => Some(Spot::Hard4),
            6 => Some(Spot::Hard6),
            8 => Some(Spot::Hard8),
            10 => Some(Spot::Hard10),
            12 => Some(Spot::Hard12),
            _ => None,
        }
    }
}

/// The number spot that a total other than seven wins.
pub open spec fn number_spot(total: u8) -> Option<Spot> {
    match total {
        2 => Some(Spot::TwoFive),
        5 => Some(Spot::TwoFive),
        3 => Some(Spot::ThreeFour),
        4 => Some(Spot::ThreeFour),
        6 => Some(Spot::Six),
        8 => Some(Spot::Eight),
        9 => Some(Spot::NineTwelve),
        12 => Some(Spot::NineTwelve),
        10 => Some(Spot::TenEleven),
        11 => Some(Spot::TenEleven),
        _ => None,
    }
}

/// The roll is a hit: a double with a hard-way total, or another total
/// that has a number spot.
pub open spec fn is_hit(roll: Dice) -> bool {
    if is_double(roll) {
        hard_spot(roll) is Some
    } else {
        number_spot(roll.total) is Some
    }
}

/// The hit count after the roll, before a grand slam closes the streak.
pub open spec fn counted_hits(round: u8, roll: Dice) -> int {
    if is_seven_out(roll) {
        0
    } else if is_hit(roll) {
        round + 1
    } else {
        round as int
    }
}

/// The hit count that the next roll starts from: a seven-out clears it,
/// a hit adds one, and the twenty-fourth hit (the sixth run) starts over.
pub open spec fn hits_after(round: u8, roll: Dice) -> int {
    if counted_hits(round, roll) == 24 {
        0
    } else {
        counted_hits(round, roll)
    }
}

/// The multiplier that a roll applies to spot `s`, when `round` hits were
/// counted before it: 0 loses the bet, 1 leaves it, more pays it.
pub open spec fn multiplier(round: u8, roll: Dice, s: Spot) -> u32 {
    let hits = counted_hits(round, roll);
    if is_seven_out(roll) {
        if s == Spot::Seven {
            5
        } else {
            0
        }
    } else if s == Spot::Seven {
        if is_hit(roll) {
            0
        } else {
            1
        }
    } else if s == Spot::Run {
        if hits > 0 && hits % 4 == 0 {
            2
        } else {
            1
        }
    } else if s == Spot::GrandSlam {
        if hits == 16 {
            5
        } else if hits == 20 {
            15
        } else if hits == 24 {
            35
        } else {
            1
        }
    } else if hard_spot(roll) == Some(s) {
        6
    } else if is_hit(roll) && number_spot(roll.total) == Some(s) {
        2
    } else {
        1
    }
}

/// The multiplier that a roll alone applies to spot `s`, before the run
/// and grand slam bonuses of the hit count.
spec fn roll_multiplier(roll: Dice, s: Spot) -> u32 {
    if is_seven_out(roll) {
        if s == Spot::Seven {
            5
        } else {
            0
        }
    } else if s == Spot::Seven {
        if is_hit(roll) {
            0
        } else {
            1
        }
    } else if hard_spot(roll) == Some(s) {
        6
    } else if is_hit(roll) && number_spot(roll.total) == Some(s) {
        2
    } else {
        1
    }
}

/// The multipliers of a roll, before the bonuses of the hit count.
fn roll_table(roll: Dice) -> (t: Table)
    ensures
        forall|s: Spot| #[trigger] t.at(s) == roll_multiplier(roll, s),
{
    let wintable = Table::uniform(1);
    let t = if roll.dice1 == roll.dice2 {
        match roll.total {
            2 => Table { hard2: 6, two5: 2, seven: 0, ..wintable },
            4 => Table { hard4: 6, three4: 2, seven: 0, ..wintable },
            6 => Table { hard6: 6, six: 2, seven: 0, ..wintable },
            8 => Table { hard8: 6, eight: 2, seven: 0, ..wintable },
            10 => Table { hard10: 6, ten11: 2, seven: 0, ..wintable },
            12 => Table { hard12: 6, nine12: 2, seven: 0, ..wintable },
            _ => wintable,
        }
    } else {
        match roll.total {
            2 => Table { two5: 2, seven: 0, ..wintable },
            3 => Table { three4: 2, seven: 0, ..wintable },
            4 => Table { three4: 2, seven: 0, ..wintable },
            5 => Table { two5: 2, seven: 0, ..wintable },
            6 => Table { six: 2, seven: 0, ..wintable },
            7 => {
                let mut lost = Table::uniform(0);
                lost.seven = 5;
                lost
            },
            8 => Table { eight: 2, seven: 0, ..wintable },
            9 => Table { nine12: 2, seven: 0, ..wintable },
            10 => Table { ten11: 2, seven: 0, ..wintable },
            11 => Table { ten11: 2, seven: 0, ..wintable },
            12 => Table { nine12: 2, seven: 0, ..wintable },
            _ => wintable,
        }
    };
    assert forall|s: Spot| #[trigger] t.at(s) == roll_multiplier(roll, s) by {
        lemma_spot_cases(s);
    }
    t
}

/// Plays one roll after `round` hits: returns the multiplier of every spot
/// and the hit count that the next roll starts from.
pub fn hand(round: u8, roll: Dice) -> (out: (Table, u8))
    requires
        counted_hits(round, roll) <= 255,
    ensures
        forall|s: Spot| #[trigger] out.0.at(s) == multiplier(round, roll, s),
        out.1 == hits_after(round, roll),
{
    let mut wintable = roll_table(roll);
    let ghost base = wintable;
    let mut pass = round;
    if roll.dice1 != roll.dice2 && roll.total == 7 {
        pass = 0;
    } else if roll.dice1 == roll.dice2 {
        if roll.total == 2 || roll.total == 4 || roll.total == 6 || roll.total == 8
            || roll.total == 10 || roll.total == 12 {
            pass += 1;
        }
    } else if 2 <= roll.total && roll.total <= 12 {
        pass += 1;
    }
    assert(pass == counted_hits(round, roll));
    if pass % 4 == 0 && pass != 0 {
        wintable.run = 2;
        let streak = pass / 4;
        if streak == 4 {
            wintable.grand_slam = 5;
        } else if streak == 5 {
            wintable.grand_slam = 15;
        } else if streak == 6 {
            pass = 0;
            wintable.grand_slam = 35;
        }
    }
    assert forall|s: Spot| #[trigger] wintable.at(s) == multiplier(round, roll, s) by {
        lemma_spot_cases(s);
        assert(base.at(s) == roll_multiplier(roll, s));
    }
    (wintable, pass)
}

/// Where the game stands between rolls.
pub struct Gamestate {
    /// Rolls since the last seven.
    pub rounds_since_7: u32,
    /// Hits counted toward the current run and grand slam.
    pub hits: u8,
    /// Completed runs of four hits.
    pub runs: u8,
}

impl Gamestate {
    /// The hit count is below the grand slam's twenty-four and the run
    /// count is the number of complete runs in it.
    pub open spec fn wf(self) -> bool {
        &&& self.hits < 24
        &&& self.runs == self.hits / 4
    }

    /// A spot takes a click: a bet on the grand slam only before the first
    /// hit, a bet on the run only at the start of a run; withdrawals and
    /// the other spots always.
    pub open spec fn spot_open(self, s: Spot, direction: bool) -> bool {
        if s == Spot::GrandSlam {
            !(self.hits > 0 && direction)
        } else if s == Spot::Run {
            !(self.hits % 4 > 0 && direction)
        } else {
            true
        }
    }

    /// A new game: no rolls, no hits, no runs.
    pub fn setup() -> (g: Gamestate)
        ensures
            g.rounds_since_7 == 0,
            g.hits == 0,
            g.runs == 0,
            g.wf(),
    {
        Gamestate { rounds_since_7: 0, hits: 0, runs: 0 }
    }

    /// Whether spot `s` takes a click in `direction`.
    pub fn is_spot_open(&self, s: Spot, direction: bool) -> (b: bool)
        ensures
            b == self.spot_open(s, direction),
    {
        match s {
            Spot::GrandSlam => !(self.hits > 0 && direction),
            Spot::Run => !(self.hits % 4 > 0 && direction),
            _ => true,
        }
    }

    /// Which of the four hit markers is lit: the rolls since the last
    /// seven, counted round four.
    pub fn hit_marker(&self) -> (m: u32)
        ensures
            m == self.rounds_since_7 % 4,
    {
        self.rounds_since_7 % 4
    }
}

/// The player's bets under the roll's multipliers stay within `u32`, the
/// hit count within `u8`, and the roll counter within `u32`.
pub open spec fn roll_fits(roll: Dice, player: Player, game: Gamestate) -> bool {
    &&& counted_hits(game.hits, roll) <= 255
    &&& forall|s: Spot| #[trigger] (multiplier(game.hits, roll, s) * player.bet.at(s)) <= u32::MAX
    &&& roll.total != 7 ==> game.rounds_since_7 < u32::MAX
}

/// Whether the roll is a hit.
fn is_hit_check(roll: Dice) -> (b: bool)
    ensures
        b == is_hit(roll),
{
    let t = roll.total;
    if roll.dice1 == roll.dice2 {
        t == 2 || t == 4 || t == 6 || t == 8 || t == 10 || t == 12
    } else {
        2 <= t && t <= 12 && t != 7
    }
}

/// Whether playing `roll` keeps the bets, the hit count and the roll
/// counter within their types.
pub fn roll_fits_check(roll: Dice, player: &Player, game: &Gamestate) -> (b: bool)
    ensures
        b == roll_fits(roll, *player, *game),
{
    let seven_out = roll.dice1 != roll.dice2 && roll.total == 7;
    if game.hits == 255 && !seven_out && is_hit_check(roll) {
        return false;
    }
    let out = hand(game.hits, roll);
    let fits = player.bet.solve_fits_check(&out.0);
    proof {
        assert(fits == (forall|s: Spot| #[trigger] (multiplier(game.hits, roll, s) * player.bet.at(s)) <= u32::MAX)) by {
            assert forall|s: Spot| #[trigger] out.0.at(s) == multiplier(game.hits, roll, s) by {}
            if fits {
                assert forall|s: Spot| #[trigger] (multiplier(game.hits, roll, s) * player.bet.at(s)) <= u32::MAX by {
                    assert(out.0.at(s) * player.bet.at(s) <= u32::MAX);
                }
            } else {
                let s = choose|s: Spot| !((out.0.at(s) * player.bet.at(s)) <= u32::MAX);
                assert(!((multiplier(game.hits, roll, s) * player.bet.at(s)) <= u32::MAX));
            }
        }
    }
    fits && (roll.total == 7 || game.rounds_since_7 < u32::MAX)
}

/// Plays `roll` at the table: every bet is multiplied by its spot's
/// multiplier, the hit and run counts move on, and the roll counter
/// restarts on a seven.
pub fn game_loop(roll: Dice, players: &mut Player, game: &mut Gamestate)
    requires
        roll_fits(roll, *old(players), *old(game)),
    ensures
        forall|s: Spot| #[trigger]
            final(players).bet.at(s) == multiplier(old(game).hits, roll, s) * old(players).bet.at(s),
        final(players).stack == old(players).stack,
        old(players).same_controls(*final(players)),
        final(game).hits == hits_after(old(game).hits, roll),
        final(game).runs == final(game).hits / 4,
        old(game).hits < 24 ==> final(game).wf(),
        final(game).rounds_since_7 == if roll.total == 7 {
            0
        } else {
            old(game).rounds_since_7 + 1
        },
{
    let round = game.hits;
    let is7: bool;
    if roll.total == 7 {
        is7 = true;
    } else {
        is7 = false;
    }
    let wintable = hand(round, roll);
    assert(players.bet.solve_fits(wintable.0)) by {
        assert forall|s: Spot| #[trigger] (wintable.0.at(s) * players.bet.at(s)) <= u32::MAX by {
            assert(wintable.0.at(s) == multiplier(round, roll, s));
        }
    }
    players.bet.solve(&wintable.0);
    if is7 {
        game.hits = wintable.1;
        game.runs = wintable.1 / 4;
        game.rounds_since_7 = 0;
    } else {
        game.hits = wintable.1;
        game.runs = wintable.1 / 4;
        game.rounds_since_7 += 1;
    }
}

/// Every roll of two real dice either sevens out or is a hit: the rules
/// have an answer for each of the thirty-six rolls.
pub proof fn lemma_valid_roll_resolves(roll: Dice)
    requires
        roll.valid(),
    ensures
        is_seven_out(roll) || is_hit(roll),
{
}

/// A seven-out loses every bet but the seven, pays the seven five times,
/// and clears the hit count.
pub proof fn lemma_seven_out_sweeps(round: u8, roll: Dice, s: Spot)
    requires
        is_seven_out(roll),
    ensures
        multiplier(round, roll, s) == if s == Spot::Seven {
            5u32
        } else {
            0u32
        },
        hits_after(round, roll) == 0,
{
}

/// A hit with real dice loses the seven bet, pays its number spot twice,
/// and adds one to the hit count (the twenty-fourth hit starts it over).
pub proof fn lemma_hit_pays_number(round: u8, roll: Dice)
    requires
        roll.valid(),
        !is_seven_out(roll),
        round < 24,
    ensures
        number_spot(roll.total) is Some,
        multiplier(round, roll, number_spot(roll.total).unwrap()) == 2,
        multiplier(round, roll, Spot::Seven) == 0,
        hits_after(round, roll) == (round + 1) % 24,
{
}

/// From fewer than twenty-four hits the count stays below twenty-four,
/// so the run and grand slam payouts always find their case.
pub proof fn lemma_hits_stay_below_grand_slam(round: u8, roll: Dice)
    requires
        round < 24,
    ensures
        counted_hits(round, roll) <= 24,
        hits_after(round, roll) < 24,
{
}

/// The grand slam pays only on the fourth, fifth and sixth completed run,
/// and the run pays whenever a run of four hits completes.
pub proof fn lemma_streak_payouts(round: u8, roll: Dice)
    requires
        !is_seven_out(roll),
    ensures
        multiplier(round, roll, Spot::Run) == if counted_hits(round, roll) > 0 && counted_hits(
            round,
            roll,
        ) % 4 == 0 {
            2u32
        } else {
            1u32
        },
        multiplier(round, roll, Spot::GrandSlam) > 1 ==> counted_hits(round, roll) == 16
            || counted_hits(round, roll) == 20 || counted_hits(round, roll) == 24,
{
}

/// After a seven-out is played, the player holds the stack and five times
/// the seven bet: every other bet is gone.
pub proof fn lemma_seven_out_leaves_stack_and_seven(
    p: Player,
    q: Player,
    round: u8,
    roll: Dice,
)
    requires
        is_seven_out(roll),
        q.stack == p.stack,
        forall|s: Spot| #[trigger] q.bet.at(s) == multiplier(round, roll, s) * p.bet.at(s),
    ensures
        forall|s: Spot| #[trigger]
            q.bet.at(s) == if s == Spot::Seven {
                5 * p.bet.seven
            } else {
                0
            },
        q.chips() == p.stack + 5 * p.bet.seven,
{
    assert forall|s: Spot| #[trigger]
        q.bet.at(s) == if s == Spot::Seven {
            5 * p.bet.at(s)
        } else {
            0
        } by {
        lemma_seven_out_sweeps(round, roll, s);
    }
    assert(q.bet.at(Spot::Hard2) == 0);
    assert(q.bet.at(Spot::Hard4) == 0);
    assert(q.bet.at(Spot::Hard6) == 0);
    assert(q.bet.at(Spot::Hard8) == 0);
    assert(q.bet.at(Spot::Hard10) == 0);
    assert(q.bet.at(Spot::Hard12) == 0);
    assert(q.bet.at(Spot::TwoFive) == 0);
    assert(q.bet.at(Spot::ThreeFour) == 0);
    assert(q.bet.at(Spot::Six) == 0);
    assert(q.bet.at(Spot::Eight) == 0);
    assert(q.bet.at(Spot::TenEleven) == 0);
    assert(q.bet.at(Spot::NineTwelve) == 0);
    assert(q.bet.at(Spot::Run) == 0);
    assert(q.bet.at(Spot::Seven) == 5 * p.bet.seven);
    assert(q.bet.at(Spot::GrandSlam) == 0);
}

/// What every roll of real dice other than a seven-out pays the hard-way,
/// number and seven spots, in any round: a double pays its own hard-way
/// spot 6 (hard 2 to hard 12 for totals 2 to 12) and no other; each total
/// pays its number spot 2 (2/5 on 2 and 5, 3/4 on 3 and 4, 6 on 6, 8 on 8,
/// 9/12 on 9 and 12, 10/11 on 10 and 11) and no other; the seven loses.
pub proof fn lemma_hit_payouts(round: u8, roll: Dice)
    requires
        roll.valid(),
        !(roll.dice1 != roll.dice2 && roll.total == 7),
    ensures
        multiplier(round, roll, Spot::Hard2) == if roll.dice1 == roll.dice2 && roll.total == 2 {
            6u32
        } else {
            1u32
        },
        multiplier(round, roll, Spot::Hard4) == if roll.dice1 == roll.dice2 && roll.total == 4 {
            6u32
        } else {
            1u32
        },
        multiplier(round, roll, Spot::Hard6) == if roll.dice1 == roll.dice2 && roll.total == 6 {
            6u32
        } else {
            1u32
        },
        multiplier(round, roll, Spot::Hard8) == if roll.dice1 == roll.dice2 && roll.total == 8 {
            6u32
        } else {
            1u32
        },
        multiplier(round, roll, Spot::Hard10) == if roll.dice1 == roll.dice2 && roll.total == 10 {
            6u32
        } else {
            1u32
        },
        multiplier(round, roll, Spot::Hard12) == if roll.dice1 == roll.dice2 && roll.total == 12 {
            6u32
        } else {
            1u32
        },
        multiplier(round, roll, Spot::TwoFive) == if roll.total == 2 || roll.total == 5 {
            2u32
        } else {
            1u32
        },
        multiplier(round, roll, Spot::ThreeFour) == if roll.total == 3 || roll.total == 4 {
            2u32
        } else {
            1u32
        },
        multiplier(round, roll, Spot::Six) == if roll.total == 6 {
            2u32
        } else {
            1u32
        },
        multiplier(round, roll, Spot::Eight) == if roll.total == 8 {
            2u32
        } else {
            1u32
        },
        multiplier(round, roll, Spot::NineTwelve) == if roll.total == 9 || roll.total == 12 {
            2u32
        } else {
            1u32
        },
        multiplier(round, roll, Spot::TenEleven) == if roll.total == 10 || roll.total == 11 {
            2u32
        } else {
            1u32
        },
        multiplier(round, roll, Spot::Seven) == 0,
{
}

/// What every roll of real dice other than a seven-out does to the streak,
/// from fewer than 24 hits: it adds a hit; the run pays 2 when the new
/// count is a multiple of four; the grand slam pays 5, 15 and 35 at the
/// 16th, 20th and 24th hit; and the 24th hit starts the count over.
pub proof fn lemma_hit_streak(round: u8, roll: Dice)
    requires
        roll.valid(),
        !(roll.dice1 != roll.dice2 && roll.total == 7),
        round < 24,
    ensures
        multiplier(round, roll, Spot::Run) == if (round + 1) % 4 == 0 {
            2u32
        } else {
            1u32
        },
        multiplier(round, roll, Spot::GrandSlam) == if round + 1 == 16 {
            5u32
        } else if round + 1 == 20 {
            15u32
        } else if round + 1 == 24 {
            35u32
        } else {
            1u32
        },
        hits_after(round, roll) == if round + 1 == 24 {
            0
        } else {
            round + 1
        },
{
}

/// A seven of two different faces loses every spot but the seven, pays the
/// seven 5, and clears the hit count, in any round.
pub proof fn lemma_seven_out_payouts(round: u8, roll: Dice, s: Spot)
    requires
        roll.dice1 != roll.dice2,
        roll.total == 7,
    ensures
        multiplier(round, roll, s) == if s == Spot::Seven {
            5u32
        } else {
            0u32
        },
        hits_after(round, roll) == 0,
{
}

/// Which spots take a click: taking chips back is always allowed, on every
/// spot; betting is allowed on every spot but the run and the grand slam;
/// a run bet only between runs (a hit count that is a multiple of four);
/// a grand slam bet only before the first hit.
pub proof fn lemma_open_spots(g: Gamestate, s: Spot)
    ensures
        g.spot_open(s, false),
        s != Spot::Run && s != Spot::GrandSlam ==> g.spot_open(s, true),
        g.spot_open(Spot::Run, true) == (g.hits % 4 == 0),
        g.spot_open(Spot::GrandSlam, true) == (g.hits == 0),
{
}

} // verus!
