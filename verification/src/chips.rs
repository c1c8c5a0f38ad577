use vstd::prelude::*;

verus! {

/// How the chips on a spot are drawn.
#[derive(Clone, Copy, Debug, PartialEq, Eq, Structural)]
pub enum ChipStack {
    /// No chips: nothing is drawn.
    Empty,
    /// Under a hundred: one red chip with the amount.
    Red(u32),
    /// A hundred or more: a green chip with the whole hundreds, and a red
    /// chip with the rest when the rest is not zero.
    GreenRed { hundreds: u32, rest: u32 },
}

/// Splits `size` chips into the chips drawn on a spot.
pub fn chip_stack(size: u32) -> (c: ChipStack)
    ensures
        size == 0 ==> c == ChipStack::Empty,
        0 < size < 100 ==> c == ChipStack::Red(size),
        size >= 100 ==> c == (ChipStack::GreenRed { hundreds: (size / 100 * 100) as u32, rest: size % 100 }),
        c matches ChipStack::GreenRed { hundreds, rest } ==> hundreds + rest == size,
{
    if size < 100 && size > 0 {
        ChipStack::Red(size)
    } else if size >= 100 {
        let size_hundreds = size / 100;
        let size_else = size - size_hundreds * 100;
        ChipStack::GreenRed { hundreds: size_hundreds * 100, rest: size_else }
    } else {
        ChipStack::Empty
    }
}

} // verus!
