use vstd::prelude::*;

verus! {

/// A betting spot on the Dice Ball table.
#[derive(Clone, Copy, Debug, PartialEq, Eq, Structural)]
pub enum Spot {
    Hard2,
    Hard4,
    Hard6,
    Hard8,
    Hard10,
    Hard12,
    TwoFive,
    ThreeFour,
    Six,
    Eight,
    TenEleven,
    NineTwelve,
    Run,
    Seven,
    GrandSlam,
}

/// One number per spot: the chips on each spot, or the multiplier that a
/// roll applies to each spot.
#[derive(Debug)]
pub struct Table {
    pub hard2: u32,
    pub hard4: u32,
    pub hard6: u32,
    pub hard8: u32,
    pub hard10: u32,
    pub hard12: u32,
    pub two5: u32,
    pub three4: u32,
    pub six: u32,
    pub eight: u32,
    pub ten11: u32,
    pub nine12: u32,
    pub run: u32,
    pub seven: u32,
    pub grand_slam: u32,
}

impl Table {
    /// The number on spot `s`.
    pub open spec fn at(self, s: Spot) -> u32 {
        match s {
            Spot::Hard2 => self.hard2,
            Spot::Hard4 => self.hard4,
            Spot::Hard6 => self.hard6,
            Spot::Hard8 => self.hard8,
            Spot::Hard10 => self.hard10,
            Spot::Hard12 => self.hard12,
            Spot::TwoFive => self.two5,
            Spot::ThreeFour => self.three4,
            Spot::Six => self.six,
            Spot::Eight => self.eight,
            Spot::TenEleven => self.ten11,
            Spot::NineTwelve => self.nine12,
            Spot::Run => self.run,
            Spot::Seven => self.seven,
            Spot::GrandSlam => self.grand_slam,
        }
    }

    /// The sum over all spots.
    pub open spec fn total(self) -> int {
        self.hard2 + self.hard4 + self.hard6 + self.hard8 + self.hard10 + self.hard12
            + self.two5 + self.three4 + self.six + self.eight + self.ten11 + self.nine12
            + self.run + self.seven + self.grand_slam
    }

    /// The table with `v` on every spot.
    pub open spec fn filled(v: u32) -> Table {
        Table {
            hard2: v,
            hard4: v,
            hard6: v,
            hard8: v,
            hard10: v,
            hard12: v,
            two5: v,
            three4: v,
            six: v,
            eight: v,
            ten11: v,
            nine12: v,
            run: v,
            seven: v,
            grand_slam: v,
        }
    }

    /// A table with `v` on every spot.
    pub fn uniform(v: u32) -> (t: Table)
        ensures
            t == Table::filled(v),
            forall|s: Spot| #[trigger] t.at(s) == v,
    {
        Table {
            hard2: v,
            hard4: v,
            hard6: v,
            hard8: v,
            hard10: v,
            hard12: v,
            two5: v,
            three4: v,
            six: v,
            eight: v,
            ten11: v,
            nine12: v,
            run: v,
            seven: v,
            grand_slam: v,
        }
    }

    /// The number on spot `s`.
    pub fn get(&self, s: Spot) -> (v: u32)
        ensures
            v == self.at(s),
    {
        match s {
            Spot::Hard2 => self.hard2,
            Spot::Hard4 => self.hard4,
            Spot::Hard6 => self.hard6,
            Spot::Hard8 => self.hard8,
            Spot::Hard10 => self.hard10,
            Spot::Hard12 => self.hard12,
            Spot::TwoFive => self.two5,
            Spot::ThreeFour => self.three4,
            Spot::Six => self.six,
            Spot::Eight => self.eight,
            Spot::TenEleven => self.ten11,
            Spot::NineTwelve => self.nine12,
            Spot::Run => self.run,
            Spot::Seven => self.seven,
            Spot::GrandSlam => self.grand_slam,
        }
    }

    /// Puts `v` on spot `s`, leaving every other spot as it was.
    pub fn set(&mut self, s: Spot, v: u32)
        ensures
            forall|t: Spot| #[trigger] final(self).at(t) == if t == s { v } else { old(self).at(t) },
    {
        match s {
            Spot::Hard2 => self.hard2 = v,
            Spot::Hard4 => self.hard4 = v,
            Spot::Hard6 => self.hard6 = v,
            Spot::Hard8 => self.hard8 = v,
            Spot::Hard10 => self.hard10 = v,
            Spot::Hard12 => self.hard12 = v,
            Spot::TwoFive => self.two5 = v,
            Spot::ThreeFour => self.three4 = v,
            Spot::Six => self.six = v,
            Spot::Eight => self.eight = v,
            Spot::TenEleven => self.ten11 = v,
            Spot::NineTwelve => self.nine12 = v,
            Spot::Run => self.run = v,
            Spot::Seven => self.seven = v,
            Spot::GrandSlam => self.grand_slam = v,
        }
    }

    /// Whether `solve` with `winner` stays within `u32` on every spot.
    pub open spec fn solve_fits(self, winner: Table) -> bool {
        forall|s: Spot| #[trigger] (winner.at(s) * self.at(s)) <= u32::MAX
    }

    /// Whether `solve` with `winner` stays within `u32` on every spot.
    pub fn solve_fits_check(&self, winner: &Table) -> (b: bool)
        ensures
            b == self.solve_fits(*winner),
    {
        let b = winner.hard2.checked_mul(self.hard2).is_some()
            && winner.hard4.checked_mul(self.hard4).is_some()
            && winner.hard6.checked_mul(self.hard6).is_some()
            && winner.hard8.checked_mul(self.hard8).is_some()
            && winner.hard10.checked_mul(self.hard10).is_some()
            && winner.hard12.checked_mul(self.hard12).is_some()
            && winner.two5.checked_mul(self.two5).is_some()
            && winner.three4.checked_mul(self.three4).is_some()
            && winner.six.checked_mul(self.six).is_some()
            && winner.eight.checked_mul(self.eight).is_some()
            && winner.ten11.checked_mul(self.ten11).is_some()
            && winner.nine12.checked_mul(self.nine12).is_some()
            && winner.run.checked_mul(self.run).is_some()
            && winner.seven.checked_mul(self.seven).is_some()
            && winner.grand_slam.checked_mul(self.grand_slam).is_some();
        proof {
            if b {
                assert forall|s: Spot| #[trigger] (winner.at(s) * self.at(s)) <= u32::MAX by {
                    lemma_spot_cases(s);
                }
            } else {
                assert(winner.at(Spot::Hard2) * self.at(Spot::Hard2) > u32::MAX
                    || winner.at(Spot::Hard4) * self.at(Spot::Hard4) > u32::MAX
                    || winner.at(Spot::Hard6) * self.at(Spot::Hard6) > u32::MAX
                    || winner.at(Spot::Hard8) * self.at(Spot::Hard8) > u32::MAX
                    || winner.at(Spot::Hard10) * self.at(Spot::Hard10) > u32::MAX
                    || winner.at(Spot::Hard12) * self.at(Spot::Hard12) > u32::MAX
                    || winner.at(Spot::TwoFive) * self.at(Spot::TwoFive) > u32::MAX
                    || winner.at(Spot::ThreeFour) * self.at(Spot::ThreeFour) > u32::MAX
                    || winner.at(Spot::Six) * self.at(Spot::Six) > u32::MAX
                    || winner.at(Spot::Eight) * self.at(Spot::Eight) > u32::MAX
                    || winner.at(Spot::TenEleven) * self.at(Spot::TenEleven) > u32::MAX
                    || winner.at(Spot::NineTwelve) * self.at(Spot::NineTwelve) > u32::MAX
                    || winner.at(Spot::Run) * self.at(Spot::Run) > u32::MAX
                    || winner.at(Spot::Seven) * self.at(Spot::Seven) > u32::MAX
                    || winner.at(Spot::GrandSlam) * self.at(Spot::GrandSlam) > u32::MAX);
            }
        }
        b
    }

    /// Applies the multipliers of `winner` to the chips on this table:
    /// every spot's chips are multiplied by that spot's multiplier.
    pub fn solve(&mut self, winner: &Table)
        requires
            old(self).solve_fits(*winner),
        ensures
            forall|s: Spot| #[trigger] final(self).at(s) == winner.at(s) * old(self).at(s),
    {
        assert(winner.at(Spot::Hard2) * self.at(Spot::Hard2) <= u32::MAX);
        assert(winner.at(Spot::Hard4) * self.at(Spot::Hard4) <= u32::MAX);
        assert(winner.at(Spot::Hard6) * self.at(Spot::Hard6) <= u32::MAX);
        assert(winner.at(Spot::Hard8) * self.at(Spot::Hard8) <= u32::MAX);
        assert(winner.at(Spot::Hard10) * self.at(Spot::Hard10) <= u32::MAX);
        assert(winner.at(Spot::Hard12) * self.at(Spot::Hard12) <= u32::MAX);
        assert(winner.at(Spot::TwoFive) * self.at(Spot::TwoFive) <= u32::MAX);
        assert(winner.at(Spot::ThreeFour) * self.at(Spot::ThreeFour) <= u32::MAX);
        assert(winner.at(Spot::Six) * self.at(Spot::Six) <= u32::MAX);
        assert(winner.at(Spot::Eight) * self.at(Spot::Eight) <= u32::MAX);
        assert(winner.at(Spot::TenEleven) * self.at(Spot::TenEleven) <= u32::MAX);
        assert(winner.at(Spot::NineTwelve) * self.at(Spot::NineTwelve) <= u32::MAX);
        assert(winner.at(Spot::Run) * self.at(Spot::Run) <= u32::MAX);
        assert(winner.at(Spot::Seven) * self.at(Spot::Seven) <= u32::MAX);
        assert(winner.at(Spot::GrandSlam) * self.at(Spot::GrandSlam) <= u32::MAX);
        self.hard2 = winner.hard2 * self.hard2;
        self.hard4 = winner.hard4 * self.hard4;
        self.hard6 = winner.hard6 * self.hard6;
        self.hard8 = winner.hard8 * self.hard8;
        self.hard10 = winner.hard10 * self.hard10;
        self.hard12 = winner.hard12 * self.hard12;
        self.two5 = winner.two5 * self.two5;
        self.three4 = winner.three4 * self.three4;
        self.six = winner.six * self.six;
        self.eight = winner.eight * self.eight;
        self.ten11 = winner.ten11 * self.ten11;
        self.nine12 = winner.nine12 * self.nine12;
        self.run = winner.run * self.run;
        self.seven = winner.seven * self.seven;
        self.grand_slam = winner.grand_slam * self.grand_slam;
    }
}

/// Splits a proof over the fifteen spots.
pub proof fn lemma_spot_cases(s: Spot)
    ensures
        s == Spot::Hard2 || s == Spot::Hard4 || s == Spot::Hard6 || s == Spot::Hard8
            || s == Spot::Hard10 || s == Spot::Hard12 || s == Spot::TwoFive || s
            == Spot::ThreeFour || s == Spot::Six || s == Spot::Eight || s == Spot::TenEleven
            || s == Spot::NineTwelve || s == Spot::Run || s == Spot::Seven || s
            == Spot::GrandSlam,
{
}

/// Two tables with the same number on every spot are the same table.
pub proof fn lemma_table_ext(a: Table, b: Table)
    requires
        forall|s: Spot| #[trigger] a.at(s) == b.at(s),
    ensures
        a == b,
{
    assert(a.at(Spot::Hard2) == b.at(Spot::Hard2));
    assert(a.at(Spot::Hard4) == b.at(Spot::Hard4));
    assert(a.at(Spot::Hard6) == b.at(Spot::Hard6));
    assert(a.at(Spot::Hard8) == b.at(Spot::Hard8));
    assert(a.at(Spot::Hard10) == b.at(Spot::Hard10));
    assert(a.at(Spot::Hard12) == b.at(Spot::Hard12));
    assert(a.at(Spot::TwoFive) == b.at(Spot::TwoFive));
    assert(a.at(Spot::ThreeFour) == b.at(Spot::ThreeFour));
    assert(a.at(Spot::Six) == b.at(Spot::Six));
    assert(a.at(Spot::Eight) == b.at(Spot::Eight));
    assert(a.at(Spot::TenEleven) == b.at(Spot::TenEleven));
    assert(a.at(Spot::NineTwelve) == b.at(Spot::NineTwelve));
    assert(a.at(Spot::Run) == b.at(Spot::Run));
    assert(a.at(Spot::Seven) == b.at(Spot::Seven));
    assert(a.at(Spot::GrandSlam) == b.at(Spot::GrandSlam));
}

/// Changing the number on one spot changes the table's total by the same
/// amount.
pub proof fn lemma_total_one_spot(a: Table, b: Table, s: Spot)
    requires
        forall|t: Spot| t != s ==> #[trigger] a.at(t) == b.at(t),
    ensures
        b.total() - a.total() == b.at(s) - a.at(s),
{
    assert(a.at(Spot::Hard2) == b.at(Spot::Hard2) || s == Spot::Hard2);
    assert(a.at(Spot::Hard4) == b.at(Spot::Hard4) || s == Spot::Hard4);
    assert(a.at(Spot::Hard6) == b.at(Spot::Hard6) || s == Spot::Hard6);
    assert(a.at(Spot::Hard8) == b.at(Spot::Hard8) || s == Spot::Hard8);
    assert(a.at(Spot::Hard10) == b.at(Spot::Hard10) || s == Spot::Hard10);
    assert(a.at(Spot::Hard12) == b.at(Spot::Hard12) || s == Spot::Hard12);
    assert(a.at(Spot::TwoFive) == b.at(Spot::TwoFive) || s == Spot::TwoFive);
    assert(a.at(Spot::ThreeFour) == b.at(Spot::ThreeFour) || s == Spot::ThreeFour);
    assert(a.at(Spot::Six) == b.at(Spot::Six) || s == Spot::Six);
    assert(a.at(Spot::Eight) == b.at(Spot::Eight) || s == Spot::Eight);
    assert(a.at(Spot::TenEleven) == b.at(Spot::TenEleven) || s == Spot::TenEleven);
    assert(a.at(Spot::NineTwelve) == b.at(Spot::NineTwelve) || s == Spot::NineTwelve);
    assert(a.at(Spot::Run) == b.at(Spot::Run) || s == Spot::Run);
    assert(a.at(Spot::Seven) == b.at(Spot::Seven) || s == Spot::Seven);
    assert(a.at(Spot::GrandSlam) == b.at(Spot::GrandSlam) || s == Spot::GrandSlam);
}

} // verus!
