//! Labels of a fixed width, so that the beacons of a log line up in columns.
use vstd::prelude::*;
use vstd::string::*;

verus! {

/// The width of the label of a shared object.
pub const INSTANCE_LABEL_WIDTH: usize = 12;

/// The width of the label of a thread.
pub const THREAD_LABEL_WIDTH: usize = 20;

/// `count` spaces.
pub open spec fn spaces(count: nat) -> Seq<char> {
    Seq::new(count, |i: int| ' ')
}

/// `text` with spaces behind it up to `width` characters; a longer text is
/// left as it is.
pub open spec fn padded(text: Seq<char>, width: nat) -> Seq<char> {
    if text.len() >= width {
        text
    } else {
        text + spaces((width - text.len()) as nat)
    }
}

/// `name` in exactly 20 characters: a longer name keeps its first eight and
/// its last nine characters around three dots, a shorter one is padded.
pub open spec fn fitted(name: Seq<char>) -> Seq<char> {
    if name.len() > 20 {
        name.take(8) + "..."@ + name.skip(name.len() - 9)
    } else {
        padded(name, 20)
    }
}

/// What `str::trim` returns for a text: the text without the white space at
/// its two ends.
pub uninterp spec fn trimmed(text: Seq<char>) -> Seq<char>;

/// `str::trim` returns the part of the text between its leading and its
/// trailing white space, where white space is what Unicode's property
/// `White_Space` says. The part is named, not described.
pub assume_specification[ str::trim ](text: &str) -> (inner: &str)
    ensures
        inner@ == trimmed(text@),
;

/// The characters of a text that may be missing.
pub open spec fn text_of(text: Option<&str>) -> Option<Seq<char>> {
    match text {
        Some(text) => Some(text@),
        None => None,
    }
}

/// The label of a thread: its name without white space at the ends, fitted;
/// a thread without a name is called `<unnamed>`.
pub open spec fn thread_label_of(name: Option<Seq<char>>) -> Seq<char> {
    match name {
        Some(name) => fitted(trimmed(name)),
        None => fitted("<unnamed>"@),
    }
}

/// A padded text is at least as wide as asked for and starts with the text.
pub proof fn lemma_padded(text: Seq<char>, width: nat)
    ensures
        padded(text, width).len() == if text.len() >= width {
            text.len()
        } else {
            width
        },
        text.is_prefix_of(padded(text, width)),
        forall|i: int| text.len() <= i < padded(text, width).len() ==> padded(text, width)[i] == ' ',
{
}

/// A fitted name is 20 characters wide, whatever the name.
pub proof fn lemma_fitted_width(name: Seq<char>)
    ensures
        fitted(name).len() == 20,
{
    reveal_strlit("...");
}

/// Pads `text` with spaces to `width` characters.
pub fn pad(text: &str, width: usize) -> (wide: String)
    ensures
        wide@ == padded(text@, width as nat),
{
    let mut wide = String::from_str(text);
    let mut len: usize = text.unicode_len();
    proof {
        reveal_strlit(" ");
    }
    while len < width
        invariant
            len >= text@.len(),
            len <= width || len == text@.len(),
            wide@.len() == len,
            wide@ == text@ + spaces((len - text@.len()) as nat),
            " "@ == seq![' '],
        decreases width - len,
    {
        wide.append(" ");
        len = len + 1;
        assert(wide@ =~= text@ + spaces((len - text@.len()) as nat));
    }
    assert(wide@ =~= padded(text@, width as nat));
    wide
}

/// Fits `name` into exactly 20 characters.
pub fn fit(name: &str) -> (label: String)
    ensures
        label@ == fitted(name@),
{
    let len = name.unicode_len();
    if len > THREAD_LABEL_WIDTH {
        let mut label = String::from_str(name.substring_char(0, 8));
        label.append("...");
        label.append(name.substring_char(len - 9, len));
        assert(label@ =~= fitted(name@));
        label
    } else {
        pad(name, THREAD_LABEL_WIDTH)
    }
}

/// The label of the shared object of the package `package`: the name, padded
/// to 12 characters.
pub fn instance_label(package: &str) -> (label: String)
    ensures
        label@ == padded(package@, 12),
{
    pad(package, INSTANCE_LABEL_WIDTH)
}

/// The label of a thread with the name `name`.
pub fn thread_label(name: Option<&str>) -> (label: String)
    ensures
        label@ == thread_label_of(text_of(name)),
{
    match name {
        Some(name) => fit(name.trim()),
        None => fit("<unnamed>"),
    }
}

} // verus!
