//! Synced lyrics for the track that is playing.
//!
//! - [`lyrics`] reads LRC files and the replies of the lyrics service.
//! - [`lrc_laws`] states which changes to an LRC file leave its lyrics the same.
//! - [`stamp_laws`] states which bytes are a timestamp, what time they name, and
//!   which lines give a timed text.
//! - [`sync`] tells where the player is and which line is current.
//! - [`backend`] is the machine that follows the player: it obtains tokens, polls
//!   the player, announces tracks and fetches their lyrics.
//! - [`interaction`] decides when the overlay takes the mouse, and [`settings`]
//!   holds what the user can set.
//! - [`token`], [`http`], [`events`] and [`text`] hold what these need.
//!
//! The library performs nothing but reading the clock: the program around it
//! carries out what the machines ask for, and tells them what came of it.

pub mod backend;
pub mod events;
pub mod http;
pub mod interaction;
pub mod lrc_laws;
pub mod lyrics;
pub mod settings;
pub mod stamp_laws;
pub mod sync;
pub mod text;
pub mod token;
