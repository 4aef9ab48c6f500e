//! The decisions of a logger that delivers messages to CloudWatch Logs.
//!
//! A message is sorted into a stream ([`stream`]) and goes either to the console ([`console`]) or
//! to the service ([`delivery`]). A delivery is a sequence of calls and replies: it makes sure that
//! the group and the stream exist ([`ensure`]), appends the event ([`put`]) and keeps what it has
//! learnt ([`cache`]). Whoever uses the library makes the calls that it asks for ([`remote`]).
//! What one turn of a delivery does is stated in [`turns`], and what holds of all its turns in [`laws`].

pub mod cache;
pub mod calendar;
pub mod clock;
pub mod console;
pub mod delivery;
pub mod ensure;
pub mod laws;
pub mod level;
pub mod panics;
pub mod put;
pub mod record;
pub mod remote;
pub mod settings;
pub mod stream;
pub mod text;
pub mod turns;
