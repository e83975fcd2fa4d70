//! Colour beacons for telling apart, in interleaved diagnostic output, the
//! loaded copies of a shared object and the threads that write the lines.
//!
//! A 64-bit identifier is mixed into a hash ([`mix`]), the hash picks a hue,
//! and the hue gives a light foreground and a darker background colour
//! ([`colour`]). A [`Beacon`] holds a label, the identifier and the two
//! colours, and renders them as a tag for a terminal with 24-bit colour
//! ([`ansi`], [`numeral`]). A log line ([`line`]) is a clock, the beacon of
//! the shared object, the beacon of the thread ([`label`], [`thread_id`]) and
//! the message.
//!
//! Nothing here reads the environment, the clock or the current thread, and
//! nothing writes: the caller hands in what it has read and gets text back.
pub mod ansi;
pub mod beacon;
pub mod colour;
pub mod label;
pub mod line;
pub mod mix;
pub mod numeral;
pub mod thread_id;

pub use beacon::Beacon;
pub use colour::hsl_to_rgb;
