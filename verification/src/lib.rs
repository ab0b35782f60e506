//! A terminal radio player's core: the spectrum renderer, the station and
//! colour catalogue, the command line, and the player state machine that the
//! terminal front end drives.

pub mod catalog;
pub mod completion;
pub mod control;
pub mod nowplaying;
pub mod player;
pub mod samples;
pub mod search_path;
pub mod spectrum;
pub mod text;
