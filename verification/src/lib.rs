//! Numbers and truth values written with the glyphs that Unicode has for
//! them: superscript and subscript digits, vulgar fractions, seven-segment
//! and outlined digits, Roman numerals, tally marks and ballot boxes.
//!
//! Every format is a small type around the value to be written, with a
//! function `fmt` that takes the [`Flags`] of the call and returns the text,
//! and a function `to_string` for the text with no flag set. What a format
//! writes is stated by a function on mathematical integers and sequences of
//! characters, and each `fmt` is proved to return exactly that text.
//!
//! The formats for numbers rest on two things: [`Integer`], which takes a
//! number of any width apart into its [`Sign`] and its magnitude, and
//! [`iter_digits`], which decomposes a magnitude into its digits in a
//! [`Base`].

pub mod ballot_box;
pub mod base;
pub mod digits;
pub mod flags;
pub mod fraction;
pub mod glyphs;
pub mod integer;
pub mod outlined;
pub mod roman;
pub mod seven_segment;
pub mod sub_superscript;
pub mod tally_marks;

pub use ballot_box::BallotBox;
pub use base::Base;
pub use digits::iter_digits;
pub use flags::Flags;
pub use fraction::{extract_sign, find_single_character_fraction, VulgarFraction};
pub use integer::{Integer, Sign, SignedInteger, UnsignedInteger};
pub use outlined::{fmt_outlined, Outlined};
pub use roman::{roman_pairs, Roman, SymbolRepertoire};
pub use seven_segment::Segmented;
pub use sub_superscript::{Subscript, Superscript};
pub use tally_marks::{fmt_tally_marks, TallyMarks};
