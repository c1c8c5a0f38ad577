use vstd::prelude::*;

verus! {

/// A roll of two six-sided dice.
#[derive(Clone, Copy, Debug, PartialEq, Eq, Structural)]
pub struct Dice {
    pub dice1: u8,
    pub dice2: u8,
    pub total: u8,
}

impl Dice {
    /// Both faces show 1 to 6 and `total` is their sum.
    pub open spec fn valid(self) -> bool {
        &&& 1 <= self.dice1 <= 6
        &&& 1 <= self.dice2 <= 6
        &&& self.total == self.dice1 + self.dice2
    }

    /// The roll named by two draws from `0..6`: each draw names its own
    /// die's face, one more than the draw.
    pub open spec fn drawn(first: int, second: int) -> Dice {
        Dice { dice1: (first + 1) as u8, dice2: (second + 1) as u8, total: (first + second + 2) as u8 }
    }

    /// The roll whose faces are the `first`-th and `second`-th of the six
    /// faces 1 to 6.
    pub fn from_draws(first: usize, second: usize) -> (d: Dice)
        requires
            first < 6,
            second < 6,
        ensures
            d.dice1 == first + 1,
            d.dice2 == second + 1,
            d.total == first + second + 2,
            d == Dice::drawn(first as int, second as int),
            d.valid(),
    {
        let dice_faces: Vec<u8> = vec![1, 2, 3, 4, 5, 6];
        let first_dice = dice_faces[first];
        let second_dice = dice_faces[second];
        let amount = first_dice + second_dice;
        Dice { dice1: first_dice, dice2: second_dice, total: amount }
    }

    /// Rolls both dice: two draws from `0..6` by `fastrand`, each naming a
    /// face.
    pub fn roll() -> (d: Dice)
        ensures
            d.valid(),
    {
        Dice::from_draws(random_below(6), random_below(6))
    }
}

/// Calls `fastrand::usize(..bound)`, which draws from the thread-local
/// generator a number in `0..bound` and panics on an empty range. The
/// contract states only that the result lies in that range; which number
/// comes out is left open, being chance.
#[verifier::external_body]
fn random_below(bound: usize) -> (r: usize)
    requires
        bound > 0,
    ensures
        r < bound,
{
    fastrand::usize(..bound)
}

/// The two draws name the roll one to one: every roll of real dice comes
/// from exactly one pair of draws, and different pairs give different
/// rolls, so each of the 36 rolls is as likely as its pair of draws.
pub proof fn lemma_draws_name_rolls(a: int, b: int, c: int, e: int, d: Dice)
    ensures
        0 <= a < 6 && 0 <= b < 6 ==> Dice::drawn(a, b).valid(),
        0 <= a < 6 && 0 <= b < 6 && 0 <= c < 6 && 0 <= e < 6 && Dice::drawn(a, b)
            == Dice::drawn(c, e) ==> a == c && b == e,
        d.valid() ==> d == Dice::drawn(d.dice1 - 1, d.dice2 - 1),
{
}

} // verus!
