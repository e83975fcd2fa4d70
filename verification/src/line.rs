//! The line of a log: a clock, the beacon of the shared object, the beacon of
//! the thread, and the message.
use crate::ansi::{end_paint, painted, start_paint};
use crate::beacon::{Beacon, BeaconView};
use crate::colour::{chroma, colour_pair, magnitude, pair_of, ramp, Rgb, FULL_SCALE};
use crate::label::{text_of, thread_label, thread_label_of};
use crate::numeral::{numeral, write_numeral};
use crate::thread_id::{thread_number, thread_number_of};
use vstd::prelude::*;
use vstd::string::*;

verus! {

/// The clock starts again at zero when it gets here.
pub const CLOCK_WRAP: u32 = 99_999;

/// Saturation of the clock's foreground: 40 percent.
pub const CLOCK_SATURATION: u32 = 40_000;

/// Lightness of the clock's background, in tenths of its foreground's
/// lightness.
pub const CLOCK_DIMMING: u32 = 5;

/// Whether a setting switches the output on: only the text `1` does.
pub open spec fn enables(setting: Option<Seq<char>>) -> bool {
    setting == Some("1"@)
}

/// The clock at `millis` milliseconds: the milliseconds, starting again at
/// zero every 99999.
pub open spec fn clock_of(millis: nat) -> nat {
    millis % 99_999
}

/// The hue of the clock: its last three digits, spread over the wheel so
/// that 999 is the full turn.
pub open spec fn clock_hue(clock: int) -> int {
    clock % 1000 * 360_000 / 999
}

/// Foreground and background of the clock: full lightness in front of half
/// lightness.
pub open spec fn clock_colours(clock: int) -> (Rgb, Rgb) {
    pair_of(clock_hue(clock), 40_000, 100_000, 5)
}

/// The clock in five digits or more, in its colours.
pub open spec fn clock_tag(clock: nat) -> Seq<char> {
    painted(
        clock_colours(clock as int).0,
        clock_colours(clock as int).1,
        numeral(clock, 10, 5),
    )
}

/// A line: the clock, the beacon of the shared object, the beacon of the
/// thread and the message, each behind its sign.
pub open spec fn line_of(
    clock: nat,
    instance: BeaconView,
    thread: BeaconView,
    message: Seq<char>,
) -> Seq<char> {
    "⏰"@ + clock_tag(clock) + " 📦"@ + instance.rendered() + " 🧵"@ + thread.rendered() + " "@
        + message
}

/// The line of a message, from what the process knows when it writes it: the
/// label and the identity of the shared object, whose beacon hides its
/// value; the name of the thread and the debug form of its id; and the time
/// in milliseconds.
pub open spec fn log_line_of(
    instance_label: Seq<char>,
    instance_id: u64,
    thread_name: Option<Seq<char>>,
    thread_id: Seq<char>,
    millis: nat,
    message: Seq<char>,
) -> Seq<char> {
    line_of(
        clock_of(millis),
        BeaconView { show_value: false, ..BeaconView::of(instance_label, instance_id) },
        BeaconView::of(thread_label_of(thread_name), thread_number_of(thread_id)),
        message,
    )
}

/// The clock is written in white, whatever its hue.
pub proof fn lemma_clock_is_white(clock: int)
    requires
        0 <= clock,
    ensures
        clock_colours(clock).0 == (255u8, 255u8, 255u8),
{
    let h = clock_hue(clock);
    assert(0 <= h <= 360_000);
    assert(100_000 - magnitude(2 * 100_000 - 100_000) == 0);
    assert(chroma(40_000, 100_000) == 0);
    assert(ramp(h) * 0 == 0);
}

/// Decides whether a setting switches the output on.
pub fn is_enabled(setting: Option<&str>) -> (on: bool)
    ensures
        on == enables(text_of(setting)),
{
    proof {
        reveal_strlit("1");
    }
    match setting {
        Some(text) => {
            let on = text.unicode_len() == 1 && text.get_char(0) == '1';
            assert(on == (text@ =~= "1"@));
            on
        },
        None => false,
    }
}

/// Computes the clock at `millis` milliseconds.
pub fn clock(millis: u128) -> (clock: u32)
    ensures
        clock == clock_of(millis as nat),
{
    (millis % (CLOCK_WRAP as u128)) as u32
}

/// Appends the clock in its colours to `out`.
pub fn write_clock(out: &mut String, clock: u32)
    ensures
        final(out)@ == old(out)@ + clock_tag(clock as nat),
{
    let ghost before = out@;
    let hue: u32 = ((clock % 1000) as u64 * 360_000 / 999) as u32;
    let (foreground, background) = colour_pair(hue, CLOCK_SATURATION, FULL_SCALE, CLOCK_DIMMING);
    start_paint(out, foreground, background);
    write_numeral(out, clock as u64, 10, 5);
    end_paint(out);
    assert(out@ =~= before + clock_tag(clock as nat));
}

/// Puts a line together.
pub fn compose(clock: u32, instance: &Beacon, thread: &Beacon, message: &str) -> (line: String)
    ensures
        line@ == line_of(clock as nat, instance@, thread@, message@),
{
    let mut line = String::from_str("⏰");
    write_clock(&mut line, clock);
    line.append(" 📦");
    instance.write_to(&mut line);
    line.append(" 🧵");
    thread.write_to(&mut line);
    line.append(" ");
    line.append(message);
    assert(line@ =~= line_of(clock as nat, instance@, thread@, message@));
    line
}

/// Writes the line of a message from what the process knows.
pub fn log_line(
    instance_label: &str,
    instance_id: u64,
    thread_name: Option<&str>,
    thread_id: &str,
    millis: u128,
    message: &str,
) -> (line: String)
    ensures
        line@ == log_line_of(
            instance_label@,
            instance_id,
            text_of(thread_name),
            thread_id@,
            millis as nat,
            message@,
        ),
{
    let instance = Beacon::new(instance_label, instance_id).show_val(false);
    let label = thread_label(thread_name);
    let thread = Beacon::new(label.as_str(), thread_number(thread_id));
    compose(clock(millis), &instance, &thread, message)
}

} // verus!
