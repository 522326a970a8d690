//! Line-oriented literal search: decide, for each line of a text, whether it
//! is emitted and what exactly is written for it.
//!
//! A search is a pattern, taken literally, and a set of switches. A line is
//! emitted when it holds the pattern (or, inverted, when it does not); what is
//! written for it is the line itself, optionally with the occurrences marked
//! and with the path of its source and its number in front.
#![allow(unused_imports)]

pub mod command;
pub mod filter;
pub mod fold;
pub mod markup;
pub mod options;
pub mod prefix;
pub mod strip;
pub mod text;
