//! A verified month calendar in the style of the traditional `cal` tool.
//!
//! A [`month::Month`] is a validated year and month number. From it the
//! library computes the layout of the month's days in Sunday-first weeks
//! ([`month::layout`]) and renders it as a fixed-width block of text
//! ([`month::render`]). Runs of consecutive months come from
//! [`month::iter::MonthGenerator`]. A request, as the command line makes it
//! ([`opt`]), is turned into the months it asks for and into their text by
//! [`request`].
//!
//! Every function states what it returns over a mathematical model: the
//! calendar on integers in [`calendar`], text as sequences of characters in
//! [`text`], and a month as the pair [`month::YearMonth`]. Verus proves each
//! function against its contract, and proves the laws that the modules state
//! as `proof fn`.
//!
//! The `time` crate answers the two calendar questions, how long a month is
//! and on which weekday it starts. What is taken on trust from it is written
//! down in [`calendar`]; beyond that the library rests on Verus and on the
//! specifications that vstd gives to `String` and `Vec`.
pub mod calendar;
pub mod error;
pub mod month;
pub mod opt;
pub mod request;
pub mod text;
