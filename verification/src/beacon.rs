//! The beacon: a label and a 64-bit value, in colours that the value decides.
use crate::ansi::{
    background_escape, end_paint, foreground_escape, painted, reset_escape, start_paint,
};
use crate::colour::{
    colour_pair, darkest_channel, hue, hue_of, lemma_channels_between, lemma_hue_of_bounds,
    lightest_channel, pair_of, tenths_of, Rgb, FOREGROUND_LIGHTNESS, FOREGROUND_SATURATION,
    FULL_TURN,
};
use crate::mix::{lemma_mixed_is_bijective, mix, mixed, unmixed};
use crate::numeral::{digit_value, lemma_numeral, numeral, numeral_value, write_numeral};
use vstd::prelude::*;
use vstd::string::*;

verus! {

/// Lightness of a beacon's background, in tenths of its foreground's
/// lightness.
pub const BACKGROUND_DIMMING: u32 = 6;

/// The least number of hexadecimal digits in which a beacon shows its value.
pub const VALUE_WIDTH: u8 = 3;

/// Foreground and background of the beacons of `value`: the hue of the
/// value's hash at 37 percent saturation and 91 percent lightness, on a
/// background of six tenths of that lightness.
pub open spec fn colours_of(value: u64) -> (Rgb, Rgb) {
    pair_of(hue_of(mixed(value)), 37_000, 91_000, 6)
}

/// A `u64` with a label, whose colours on a 24-bit ANSI terminal are
/// determined by its value.
pub struct Beacon<'a> {
    fg: Rgb,
    bg: Rgb,
    name: &'a str,
    val: u64,
    show_val: bool,
}

/// What a beacon holds.
pub struct BeaconView {
    pub name: Seq<char>,
    pub value: u64,
    pub show_value: bool,
    pub foreground: Rgb,
    pub background: Rgb,
}

impl BeaconView {
    /// The beacon that is made of `name` and `value`: it shows its value and
    /// has the colours of its value.
    pub open spec fn of(name: Seq<char>, value: u64) -> BeaconView {
        BeaconView {
            name,
            value,
            show_value: true,
            foreground: colours_of(value).0,
            background: colours_of(value).1,
        }
    }

    /// Whether the colours are those of the value.
    pub open spec fn wf(self) -> bool {
        (self.foreground, self.background) == colours_of(self.value)
    }

    /// The label, and behind it, where the value is shown, a middle dot and
    /// the value in lowercase hexadecimal.
    pub open spec fn caption(self) -> Seq<char> {
        if self.show_value {
            self.name + "·"@ + numeral(self.value as nat, 16, 3)
        } else {
            self.name
        }
    }

    /// The text form: the caption in the beacon's colours.
    pub open spec fn rendered(self) -> Seq<char> {
        painted(self.foreground, self.background, self.caption())
    }
}

impl<'a> View for Beacon<'a> {
    type V = BeaconView;

    closed spec fn view(&self) -> BeaconView {
        BeaconView {
            name: self.name@,
            value: self.val,
            show_value: self.show_val,
            foreground: self.fg,
            background: self.bg,
        }
    }
}

/// The colours of a beacon are decided by its value alone: two beacons of one
/// value have the same foreground and the same background, whatever their
/// labels and whether or not they show the value.
pub proof fn lemma_colours_follow_value(a: BeaconView, b: BeaconView)
    requires
        a.wf(),
        b.wf(),
        a.value == b.value,
    ensures
        a.foreground == b.foreground,
        a.background == b.background,
{
}

/// No hue is left out: every hue short of the full turn is the hue of some
/// value.
pub proof fn lemma_every_hue_is_taken(h: int)
    requires
        0 <= h < FULL_TURN,
    ensures
        exists|value: u64| hue_of(mixed(value)) == h,
{
    let hash = ((h * 0x1_0000_0000_0000_0000 + 359_999) / 360_000) as u64;
    assert(hue_of(hash) == h);
    lemma_mixed_is_bijective(hash);
    assert(hue_of(mixed(unmixed(hash))) == h);
}

/// A beacon is legible whatever its value: the background is darker than
/// the foreground, lightness against lightness and channel against channel.
/// The channels of the foreground are 223 to 240, those of the background
/// 104 to 173.
pub proof fn lemma_background_is_darker(value: u64)
    ensures
        tenths_of(FOREGROUND_LIGHTNESS as int, BACKGROUND_DIMMING as int) < FOREGROUND_LIGHTNESS,
        darkest_channel(colours_of(value).0) == 223,
        lightest_channel(colours_of(value).0) == 240,
        darkest_channel(colours_of(value).1) == 104,
        lightest_channel(colours_of(value).1) == 173,
        lightest_channel(colours_of(value).1) < darkest_channel(colours_of(value).0),
{
    let h = hue_of(mixed(value));
    lemma_hue_of_bounds(mixed(value));
    lemma_channels_between(h, 37_000, 91_000);
    lemma_channels_between(h, 29_600, 54_600);
}

/// The text form, piece by piece: one background escape, one foreground
/// escape, the label, then, where the value is shown, a middle dot and the
/// value, and the reset at the end. The value is in three or more lowercase
/// hexadecimal digits that spell it.
pub proof fn lemma_rendered_parts(b: BeaconView)
    ensures
        b.show_value ==> b.rendered() == background_escape(b.background) + foreground_escape(
            b.foreground,
        ) + b.name + seq!['·'] + numeral(b.value as nat, 16, 3) + reset_escape(),
        !b.show_value ==> b.rendered() == background_escape(b.background) + foreground_escape(
            b.foreground,
        ) + b.name + reset_escape(),
        numeral(b.value as nat, 16, 3).len() >= 3,
        numeral_value(numeral(b.value as nat, 16, 3), 16) == b.value,
        forall|i: int|
            0 <= i < numeral(b.value as nat, 16, 3).len() ==> digit_value(
                #[trigger] numeral(b.value as nat, 16, 3)[i],
            ) < 16,
{
    reveal_strlit("·");
    assert("·"@ =~= seq!['·']);
    lemma_numeral(b.value as nat, 16, 3);
    let head = background_escape(b.background) + foreground_escape(b.foreground);
    if b.show_value {
        assert(b.rendered() =~= head + b.name + seq!['·'] + numeral(b.value as nat, 16, 3)
            + reset_escape());
    } else {
        assert(b.rendered() =~= head + b.name + reset_escape());
    }
}

/// `std::ptr::from_ref`, with the pointer it gives converted to a number:
/// the place in memory of what `r` refers to. Nothing is claimed of the
/// number, which is another one in every run.
#[verifier::external_body]
fn address_of<T>(r: &T) -> (address: u64) {
    std::ptr::from_ref(r) as u64
}

impl<'a> Beacon<'a> {
    #[verifier::type_invariant]
    spec fn coloured_by_value(self) -> bool {
        self@.wf()
    }

    /// Creates a beacon for what `r` refers to: its value is the address of
    /// the referent.
    pub fn from_ref<T>(name: &'a str, r: &T) -> (beacon: Self)
        ensures
            beacon@ == BeaconView::of(name@, beacon@.value),
    {
        Self::new(name, address_of(r))
    }

    /// Creates a beacon with the label `name` and the value `u`.
    pub fn new(name: &'a str, u: u64) -> (beacon: Self)
        ensures
            beacon@ == BeaconView::of(name@, u),
    {
        let h = hue(mix(u));
        let (fg, bg) = colour_pair(h, FOREGROUND_SATURATION, FOREGROUND_LIGHTNESS, BACKGROUND_DIMMING);
        Beacon { fg, bg, name, val: u, show_val: true }
    }

    /// Decides whether the text form shows the value behind the label.
    pub fn show_val(self, show_val: bool) -> (beacon: Self)
        ensures
            beacon@ == (BeaconView { show_value: show_val, ..self@ }),
            beacon@.wf(),
    {
        proof {
            use_type_invariant(&self);
        }
        Beacon { fg: self.fg, bg: self.bg, name: self.name, val: self.val, show_val }
    }

    /// The label.
    pub fn name(&self) -> (name: &'a str)
        ensures
            name@ == self@.name,
    {
        self.name
    }

    /// The value.
    pub fn value(&self) -> (value: u64)
        ensures
            value == self@.value,
    {
        self.val
    }

    /// Whether the text form shows the value.
    pub fn shows_value(&self) -> (shown: bool)
        ensures
            shown == self@.show_value,
    {
        self.show_val
    }

    /// The foreground colour, which is that of the value.
    pub fn foreground(&self) -> (colour: Rgb)
        ensures
            colour == self@.foreground,
            colour == colours_of(self@.value).0,
    {
        proof {
            use_type_invariant(self);
        }
        self.fg
    }

    /// The background colour, which is that of the value.
    pub fn background(&self) -> (colour: Rgb)
        ensures
            colour == self@.background,
            colour == colours_of(self@.value).1,
    {
        proof {
            use_type_invariant(self);
        }
        self.bg
    }

    /// Appends the text form of the beacon to `out`.
    pub fn write_to(&self, out: &mut String)
        ensures
            final(out)@ == old(out)@ + self@.rendered(),
    {
        let ghost before = out@;
        start_paint(out, self.fg, self.bg);
        out.append(self.name);
        if self.show_val {
            out.append("·");
            write_numeral(out, self.val, 16, VALUE_WIDTH);
        }
        end_paint(out);
        assert(out@ =~= before + self@.rendered());
    }

    /// The text form of the beacon.
    pub fn render(&self) -> (text: String)
        ensures
            text@ == self@.rendered(),
    {
        let mut text = String::new();
        self.write_to(&mut text);
        assert(text@ =~= self@.rendered());
        text
    }
}

} // verus!
