use vstd::prelude::*;

use crate::rules::Gamestate;
use crate::table::{lemma_table_ext, lemma_total_one_spot, Spot, Table};
use crate::text::{decimal, format_u32, parse_u32, parsed_u32};

verus! {

/// A player at the table: the chips in hand, the chips on each spot, and
/// the settings of the betting controls.
pub struct Player {
    /// Chips in hand.
    pub stack: u32,
    /// How many chips one click on a spot moves.
    pub bet_size: u32,
    /// Chips on each spot.
    pub bet: Table,
    pub name: String,
    /// The text of the bet-size field.
    pub bet_amount: String,
    /// `true` puts chips on a spot, `false` takes them back.
    pub bet_direction: bool,
}

impl Player {
    /// A move of `size` chips onto (`direction`) or off spot `s` has the
    /// chips to move: in hand when betting, on the spot when withdrawing.
    pub open spec fn accepts(self, s: Spot, size: u32, direction: bool) -> bool {
        if direction {
            size <= self.stack
        } else {
            size <= self.bet.at(s)
        }
    }

    /// The receiving side of the move stays within `u32`.
    pub open spec fn transfer_fits(self, s: Spot, size: u32, direction: bool) -> bool {
        if direction {
            self.bet.at(s) + size <= u32::MAX
        } else {
            self.stack + size <= u32::MAX
        }
    }

    /// `next` has the same name and betting controls as `self`.
    pub open spec fn same_controls(self, next: Player) -> bool {
        &&& next.bet_size == self.bet_size
        &&& next.name == self.name
        &&& next.bet_amount == self.bet_amount
        &&& next.bet_direction == self.bet_direction
    }

    /// `next` is `self` with `size` chips moved from the stack onto spot
    /// `s` (`direction`), or from the spot back to the stack.
    pub open spec fn shifted(self, next: Player, s: Spot, size: u32, direction: bool) -> bool {
        &&& self.same_controls(next)
        &&& next.stack == if direction {
            self.stack - size
        } else {
            self.stack + size
        }
        &&& forall|t: Spot| #[trigger]
            next.bet.at(t) == if t != s {
                self.bet.at(t) as int
            } else if direction {
                self.bet.at(s) + size
            } else {
                self.bet.at(s) - size
            }
    }

    /// `next` holds the same chips as `self`.
    pub open spec fn unchanged(self, next: Player) -> bool {
        &&& self.same_controls(next)
        &&& next.stack == self.stack
        &&& forall|t: Spot| #[trigger] next.bet.at(t) == self.bet.at(t)
    }

    /// The checked move: made when the chips are there, refused otherwise.
    pub open spec fn moved(self, next: Player, s: Spot, size: u32, direction: bool) -> bool {
        if self.accepts(s, size, direction) {
            self.shifted(next, s, size, direction)
        } else {
            self.unchanged(next)
        }
    }

    /// The checked move does not overflow.
    pub open spec fn move_fits(self, s: Spot, size: u32, direction: bool) -> bool {
        self.accepts(s, size, direction) ==> self.transfer_fits(s, size, direction)
    }

    /// What clicking spot `s` does: the hard-8 spot moves the chips
    /// unchecked, every other spot makes the checked move.
    pub open spec fn placed(self, next: Player, s: Spot, size: u32, direction: bool) -> bool {
        if s == Spot::Hard8 {
            self.shifted(next, s, size, direction)
        } else {
            self.moved(next, s, size, direction)
        }
    }

    /// The move on spot `s` neither underflows nor overflows.
    pub open spec fn place_fits(self, s: Spot, size: u32, direction: bool) -> bool {
        if s == Spot::Hard8 {
            self.accepts(s, size, direction) && self.transfer_fits(s, size, direction)
        } else {
            self.move_fits(s, size, direction)
        }
    }

    /// All the player's chips: in hand and on the table.
    pub open spec fn chips(self) -> int {
        self.stack + self.bet.total()
    }

    /// A player named `name` holding `start_stack` chips, nothing on the
    /// table, a bet size of 0 shown as "0", set to bet.
    pub fn new(name: String, start_stack: u32) -> (p: Player)
        ensures
            p.stack == start_stack,
            p.bet_size == 0,
            p.bet == Table::filled(0),
            p.name == name,
            p.bet_amount@ == seq!['0'],
            p.bet_direction,
    {
        let amount = format_u32(0);
        proof {
            reveal_with_fuel(decimal, 1);
        }
        Player {
            stack: start_stack,
            bet_size: 0,
            bet: Table::uniform(0),
            name: name,
            bet_amount: amount,
            bet_direction: true,
        }
    }

    /// Whether the checked move of `size` on `s` stays within `u32`.
    pub fn move_fits_check(&self, s: Spot, size: u32, direction: bool) -> (b: bool)
        ensures
            b == self.move_fits(s, size, direction),
    {
        let on_spot = self.bet.get(s);
        if direction {
            size > self.stack || on_spot <= u32::MAX - size
        } else {
            size > on_spot || self.stack <= u32::MAX - size
        }
    }

    /// Whether clicking spot `s` with `size` and `direction` stays within
    /// `u32`.
    pub fn place_fits_check(&self, s: Spot, size: u32, direction: bool) -> (b: bool)
        ensures
            b == self.place_fits(s, size, direction),
    {
        match s {
            Spot::Hard8 => {
                let on_spot = self.bet.hard8;
                if direction {
                    size <= self.stack && on_spot <= u32::MAX - size
                } else {
                    size <= on_spot && self.stack <= u32::MAX - size
                }
            },
            _ => self.move_fits_check(s, size, direction),
        }
    }

    /// The checked move of `size` chips onto spot `s` or back.
    fn checked_move(&mut self, s: Spot, size: u32, direction: bool)
        requires
            old(self).move_fits(s, size, direction),
        ensures
            old(self).moved(*final(self), s, size, direction),
    {
        let on_spot = self.bet.get(s);
        if direction {
            if size <= self.stack {
                self.stack -= size;
                self.bet.set(s, on_spot + size);
            }
        } else {
            if size <= on_spot {
                self.bet.set(s, on_spot - size);
                self.stack += size;
            }
        }
    }

    /// Bets `size` chips on the run, or takes them back.
    pub fn bet_run(&mut self, size: u32, direction: bool)
        requires
            old(self).move_fits(Spot::Run, size, direction),
        ensures
            old(self).moved(*final(self), Spot::Run, size, direction),
    {
        self.checked_move(Spot::Run, size, direction)
    }

    /// Bets `size` chips on the grand slam, or takes them back.
    pub fn bet_grand_slam(&mut self, size: u32, direction: bool)
        requires
            old(self).move_fits(Spot::GrandSlam, size, direction),
        ensures
            old(self).moved(*final(self), Spot::GrandSlam, size, direction),
    {
        self.checked_move(Spot::GrandSlam, size, direction)
    }

    /// Bets `size` chips on the seven, or takes them back.
    pub fn bet_seven(&mut self, size: u32, direction: bool)
        requires
            old(self).move_fits(Spot::Seven, size, direction),
        ensures
            old(self).moved(*final(self), Spot::Seven, size, direction),
    {
        self.checked_move(Spot::Seven, size, direction)
    }

    /// Bets `size` chips on hard 2, or takes them back.
    pub fn bet_hard2(&mut self, size: u32, direction: bool)
        requires
            old(self).move_fits(Spot::Hard2, size, direction),
        ensures
            old(self).moved(*final(self), Spot::Hard2, size, direction),
    {
        self.checked_move(Spot::Hard2, size, direction)
    }

    /// Bets `size` chips on hard 4, or takes them back.
    pub fn bet_hard4(&mut self, size: u32, direction: bool)
        requires
            old(self).move_fits(Spot::Hard4, size, direction),
        ensures
            old(self).moved(*final(self), Spot::Hard4, size, direction),
    {
        self.checked_move(Spot::Hard4, size, direction)
    }

    /// Bets `size` chips on hard 6, or takes them back.
    pub fn bet_hard6(&mut self, size: u32, direction: bool)
        requires
            old(self).move_fits(Spot::Hard6, size, direction),
        ensures
            old(self).moved(*final(self), Spot::Hard6, size, direction),
    {
        self.checked_move(Spot::Hard6, size, direction)
    }

    /// Moves `size` chips onto hard 8 or back without checking that the
    /// chips are there: the caller must hold them.
    pub fn bet_hard8(&mut self, size: u32, direction: bool)
        requires
            old(self).accepts(Spot::Hard8, size, direction),
            old(self).transfer_fits(Spot::Hard8, size, direction),
        ensures
            old(self).shifted(*final(self), Spot::Hard8, size, direction),
    {
        if direction {
            self.bet.hard8 += size;
            self.stack -= size;
        } else {
            self.bet.hard8 -= size;
            self.stack += size;
        }
    }

    /// Bets `size` chips on hard 10, or takes them back.
    pub fn bet_hard10(&mut self, size: u32, direction: bool)
        requires
            old(self).move_fits(Spot::Hard10, size, direction),
        ensures
            old(self).moved(*final(self), Spot::Hard10, size, direction),
    {
        self.checked_move(Spot::Hard10, size, direction)
    }

    /// Bets `size` chips on hard 12, or takes them back.
    pub fn bet_hard12(&mut self, size: u32, direction: bool)
        requires
            old(self).move_fits(Spot::Hard12, size, direction),
        ensures
            old(self).moved(*final(self), Spot::Hard12, size, direction),
    {
        self.checked_move(Spot::Hard12, size, direction)
    }

    /// Bets `size` chips on the 6, or takes them back.
    pub fn bet_six(&mut self, size: u32, direction: bool)
        requires
            old(self).move_fits(Spot::Six, size, direction),
        ensures
            old(self).moved(*final(self), Spot::Six, size, direction),
    {
        self.checked_move(Spot::Six, size, direction)
    }

    /// Bets `size` chips on the 8, or takes them back.
    pub fn bet_eight(&mut self, size: u32, direction: bool)
        requires
            old(self).move_fits(Spot::Eight, size, direction),
        ensures
            old(self).moved(*final(self), Spot::Eight, size, direction),
    {
        self.checked_move(Spot::Eight, size, direction)
    }

    /// Bets `size` chips on 2/5, or takes them back.
    pub fn bet_two5(&mut self, size: u32, direction: bool)
        requires
            old(self).move_fits(Spot::TwoFive, size, direction),
        ensures
            old(self).moved(*final(self), Spot::TwoFive, size, direction),
    {
        self.checked_move(Spot::TwoFive, size, direction)
    }

    /// Bets `size` chips on 3/4, or takes them back.
    pub fn bet_three4(&mut self, size: u32, direction: bool)
        requires
            old(self).move_fits(Spot::ThreeFour, size, direction),
        ensures
            old(self).moved(*final(self), Spot::ThreeFour, size, direction),
    {
        self.checked_move(Spot::ThreeFour, size, direction)
    }

    /// Bets `size` chips on 10/11, or takes them back.
    pub fn bet_ten11(&mut self, size: u32, direction: bool)
        requires
            old(self).move_fits(Spot::TenEleven, size, direction),
        ensures
            old(self).moved(*final(self), Spot::TenEleven, size, direction),
    {
        self.checked_move(Spot::TenEleven, size, direction)
    }

    /// Bets `size` chips on 9/12, or takes them back.
    pub fn bet_nine12(&mut self, size: u32, direction: bool)
        requires
            old(self).move_fits(Spot::NineTwelve, size, direction),
        ensures
            old(self).moved(*final(self), Spot::NineTwelve, size, direction),
    {
        self.checked_move(Spot::NineTwelve, size, direction)
    }

    /// Moves `size` chips on spot `s` through that spot's bet function.
    pub fn place(&mut self, s: Spot, size: u32, direction: bool)
        requires
            old(self).place_fits(s, size, direction),
        ensures
            old(self).placed(*final(self), s, size, direction),
    {
        match s {
            Spot::Hard2 => self.bet_hard2(size, direction),
            Spot::Hard4 => self.bet_hard4(size, direction),
            Spot::Hard6 => self.bet_hard6(size, direction),
            Spot::Hard8 => self.bet_hard8(size, direction),
            Spot::Hard10 => self.bet_hard10(size, direction),
            Spot::Hard12 => self.bet_hard12(size, direction),
            Spot::TwoFive => self.bet_two5(size, direction),
            Spot::ThreeFour => self.bet_three4(size, direction),
            Spot::Six => self.bet_six(size, direction),
            Spot::Eight => self.bet_eight(size, direction),
            Spot::TenEleven => self.bet_ten11(size, direction),
            Spot::NineTwelve => self.bet_nine12(size, direction),
            Spot::Run => self.bet_run(size, direction),
            Spot::Seven => self.bet_seven(size, direction),
            Spot::GrandSlam => self.bet_grand_slam(size, direction),
        }
    }

    /// A click on spot `s`: when the spot takes a click, moves the bet size
    /// in the chosen direction; otherwise nothing happens.
    pub fn click_spot(&mut self, game: &Gamestate, s: Spot)
        requires
            game.spot_open(s, old(self).bet_direction) ==> old(self).place_fits(
                s,
                old(self).bet_size,
                old(self).bet_direction,
            ),
        ensures
            if game.spot_open(s, old(self).bet_direction) {
                old(self).placed(*final(self), s, old(self).bet_size, old(self).bet_direction)
            } else {
                *final(self) == *old(self)
            },
    {
        if game.is_spot_open(s, self.bet_direction) {
            let size = self.bet_size;
            let direction = self.bet_direction;
            self.place(s, size, direction);
        }
    }

    /// The bet-size field was edited: the bet size becomes the number it
    /// reads, or 0 when it reads no `u32`.
    pub fn amount_edited(&mut self)
        ensures
            final(self).bet_size == match parsed_u32(old(self).bet_amount@) {
                Some(v) => v,
                None => 0,
            },
            final(self).stack == old(self).stack,
            final(self).bet == old(self).bet,
            final(self).name == old(self).name,
            final(self).bet_amount == old(self).bet_amount,
            final(self).bet_direction == old(self).bet_direction,
    {
        self.bet_size = match parse_u32(self.bet_amount.as_str()) {
            Some(v) => v,
            None => 0,
        };
    }

    /// The bet-size field lost focus: it shows the bet size again.
    pub fn amount_left(&mut self)
        ensures
            final(self).bet_amount@ == decimal(old(self).bet_size as nat),
            final(self).stack == old(self).stack,
            final(self).bet_size == old(self).bet_size,
            final(self).bet == old(self).bet,
            final(self).name == old(self).name,
            final(self).bet_direction == old(self).bet_direction,
    {
        self.bet_amount = format_u32(self.bet_size);
    }

    /// The bet/withdraw control was clicked: the direction flips.
    pub fn toggle_direction(&mut self)
        ensures
            final(self).bet_direction == !old(self).bet_direction,
            final(self).stack == old(self).stack,
            final(self).bet_size == old(self).bet_size,
            final(self).bet == old(self).bet,
            final(self).name == old(self).name,
            final(self).bet_amount == old(self).bet_amount,
    {
        self.bet_direction = !self.bet_direction;
    }
}

/// Moving chips between the stack and a spot, or refusing to, never
/// changes how many chips the player has in all.
pub proof fn lemma_bet_keeps_chips(p: Player, q: Player, s: Spot, size: u32, direction: bool)
    requires
        p.placed(q, s, size, direction),
    ensures
        q.chips() == p.chips(),
{
    lemma_total_one_spot(p.bet, q.bet, s);
}

/// Taking back the chips just bet on a spot restores the player exactly.
pub proof fn lemma_withdraw_undoes_bet(p: Player, q: Player, r: Player, s: Spot, size: u32)
    requires
        p.accepts(s, size, true),
        p.placed(q, s, size, true),
        q.placed(r, s, size, false),
    ensures
        r == p,
{
    assert(q.accepts(s, size, false));
    lemma_table_ext(r.bet, p.bet);
}

/// A bet that the chips do not cover, or a withdrawal of more than the
/// spot holds, leaves the player as it was (except on hard 8, which does
/// not check).
pub proof fn lemma_refused_move_changes_nothing(
    p: Player,
    q: Player,
    s: Spot,
    size: u32,
    direction: bool,
)
    requires
        s != Spot::Hard8,
        !p.accepts(s, size, direction),
        p.placed(q, s, size, direction),
    ensures
        q == p,
{
    lemma_table_ext(q.bet, p.bet);
}

/// A take-back click always goes through when the spot holds the chips:
/// whatever the game state, the bet size moves from the spot back to the
/// stack (`q` is the player after `click_spot`).
pub proof fn lemma_withdraw_click(p: Player, q: Player, g: Gamestate, s: Spot)
    requires
        !p.bet_direction,
        p.bet_size <= p.bet.at(s),
        if g.spot_open(s, p.bet_direction) {
            p.placed(q, s, p.bet_size, p.bet_direction)
        } else {
            q == p
        },
    ensures
        q.stack == p.stack + p.bet_size,
        q.bet.at(s) == p.bet.at(s) - p.bet_size,
{
    crate::rules::lemma_open_spots(g, s);
}

/// A checked bet goes through exactly when the stack covers it, and a
/// checked take-back exactly when the spot holds the chips: then the chips
/// move between the stack and that spot alone; otherwise nothing changes.
pub proof fn lemma_checked_move(p: Player, q: Player, s: Spot, size: u32, direction: bool, t: Spot)
    requires
        s != Spot::Hard8,
        p.placed(q, s, size, direction),
    ensures
        direction && size <= p.stack ==> q.stack == p.stack - size && q.bet.at(s) == p.bet.at(s)
            + size,
        direction && size > p.stack ==> q.stack == p.stack && q.bet.at(s) == p.bet.at(s),
        !direction && size <= p.bet.at(s) ==> q.stack == p.stack + size && q.bet.at(s)
            == p.bet.at(s) - size,
        !direction && size > p.bet.at(s) ==> q.stack == p.stack && q.bet.at(s) == p.bet.at(s),
        t != s ==> q.bet.at(t) == p.bet.at(t),
        q.bet_size == p.bet_size && q.bet_direction == p.bet_direction,
{
}

} // verus!
