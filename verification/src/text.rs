//! The display as text, for inspection.

use vstd::prelude::*;

verus! {

/// The text of one pixel, a line of its own: two blanks for a lit pixel,
/// `0` for a dark one.
pub open spec fn pixel_text(lit: bool) -> Seq<char> {
    if lit {
        seq![' ', ' ', '\n']
    } else {
        seq!['0', '\n']
    }
}

/// The text of the first `n` pixels, with two line ends after each complete
/// row of 64.
pub open spec fn pixels_text(gfx: Seq<bool>, n: nat) -> Seq<char>
    decreases n,
{
    if n == 0 {
        Seq::empty()
    } else {
        let text = pixels_text(gfx, (n - 1) as nat) + pixel_text(gfx[n - 1]);
        if n % 64 == 0 {
            text + seq!['\n', '\n']
        } else {
            text
        }
    }
}

/// The text of a whole display: its 2048 pixels, then two line ends.
pub open spec fn display_text(gfx: Seq<bool>) -> Seq<char> {
    pixels_text(gfx, 2048) + seq!['\n', '\n']
}

} // verus!
