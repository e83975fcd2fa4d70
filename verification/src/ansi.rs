//! The escape sequences that colour text on a terminal with 24-bit colour.
use crate::colour::Rgb;
use crate::numeral::{digit_value, lemma_numeral, numeral, numeral_value, write_numeral};
use vstd::prelude::*;
use vstd::string::*;

verus! {

/// The three channels of `c` in decimal, separated by semicolons.
pub open spec fn triple(c: Rgb) -> Seq<char> {
    numeral(c.0 as nat, 10, 1) + ";"@ + numeral(c.1 as nat, 10, 1) + ";"@ + numeral(
        c.2 as nat,
        10,
        1,
    )
}

/// The sequence that sets the background colour to `c`.
pub open spec fn background_escape(c: Rgb) -> Seq<char> {
    "\x1b[48;2;"@ + triple(c) + "m"@
}

/// The sequence that sets the foreground colour to `c`.
pub open spec fn foreground_escape(c: Rgb) -> Seq<char> {
    "\x1b[38;2;"@ + triple(c) + "m"@
}

/// The sequence that ends all colouring.
pub open spec fn reset_escape() -> Seq<char> {
    "\x1b[0m"@
}

/// `text` in the colour `foreground` on `background`: one background escape,
/// one foreground escape, the text, and the reset.
pub open spec fn painted(foreground: Rgb, background: Rgb, text: Seq<char>) -> Seq<char> {
    background_escape(background) + foreground_escape(foreground) + text + reset_escape()
}

/// A channel is written in one to three decimal digits that spell it.
pub proof fn lemma_channel_numeral(channel: u8)
    ensures
        1 <= numeral(channel as nat, 10, 1).len() <= 3,
        numeral_value(numeral(channel as nat, 10, 1), 10) == channel,
        forall|i: int|
            0 <= i < numeral(channel as nat, 10, 1).len() ==> digit_value(
                #[trigger] numeral(channel as nat, 10, 1)[i],
            ) < 10,
{
    lemma_numeral(channel as nat, 10, 1);
    reveal_with_fuel(numeral, 4);
}

/// The escapes, character by character: the escape character, an opening
/// bracket, 48 for the background or 38 for the foreground, a 2 for 24-bit
/// colour, the three channels, each behind a semicolon, and the letter `m`;
/// the reset has a zero in place of all that.
pub proof fn lemma_escapes_spelled_out(c: Rgb)
    ensures
        background_escape(c) == seq!['\x1b', '[', '4', '8', ';', '2', ';'] + triple(c) + seq!['m'],
        foreground_escape(c) == seq!['\x1b', '[', '3', '8', ';', '2', ';'] + triple(c) + seq!['m'],
        triple(c) == numeral(c.0 as nat, 10, 1) + seq![';'] + numeral(c.1 as nat, 10, 1) + seq![
            ';',
        ] + numeral(c.2 as nat, 10, 1),
        reset_escape() == seq!['\x1b', '[', '0', 'm'],
{
    reveal_strlit("\x1b[48;2;");
    reveal_strlit("\x1b[38;2;");
    reveal_strlit("\x1b[0m");
    reveal_strlit("m");
    reveal_strlit(";");
    assert("\x1b[48;2;"@ =~= seq!['\x1b', '[', '4', '8', ';', '2', ';']);
    assert("\x1b[38;2;"@ =~= seq!['\x1b', '[', '3', '8', ';', '2', ';']);
    assert("\x1b[0m"@ =~= seq!['\x1b', '[', '0', 'm']);
    assert("m"@ =~= seq!['m']);
    assert(";"@ =~= seq![';']);
}

/// Appends the three channels of `c` to `out`.
fn write_triple(out: &mut String, c: Rgb)
    ensures
        final(out)@ == old(out)@ + triple(c),
{
    let ghost before = out@;
    write_numeral(out, c.0 as u64, 10, 1);
    out.append(";");
    write_numeral(out, c.1 as u64, 10, 1);
    out.append(";");
    write_numeral(out, c.2 as u64, 10, 1);
    assert(out@ =~= before + triple(c));
}

/// Appends to `out` the escapes that start text in `foreground` on
/// `background`.
pub fn start_paint(out: &mut String, foreground: Rgb, background: Rgb)
    ensures
        final(out)@ == old(out)@ + background_escape(background) + foreground_escape(foreground),
{
    let ghost before = out@;
    out.append("\x1b[48;2;");
    write_triple(out, background);
    out.append("m");
    out.append("\x1b[38;2;");
    write_triple(out, foreground);
    out.append("m");
    assert(out@ =~= before + background_escape(background) + foreground_escape(foreground));
}

/// Appends the reset to `out`.
pub fn end_paint(out: &mut String)
    ensures
        final(out)@ == old(out)@ + reset_escape(),
{
    out.append("\x1b[0m");
}

} // verus!
