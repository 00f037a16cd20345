//! The native side of a desktop audio player.
//!
//! The heart of the crate finds the audio files below a directory ([`scan`],
//! with its proof in [`tree`]) and makes the record of one audio file
//! ([`extract`], [`record`], [`artwork`]). The crate opens, reads and writes
//! no file itself: it says what to read and takes what was read or parsed.
//!
//! Around it stand the rules of the application's menu, labels, links and
//! window ([`menu`], [`schema`], [`find`], [`locale`], [`links`], [`window`]).

pub mod artwork;
pub mod container;
pub mod digest;
pub mod extract;
pub mod find;
pub mod format;
pub mod json;
pub mod links;
pub mod locale;
pub mod menu;
pub mod record;
pub mod scan;
pub mod schema;
pub mod text;
pub mod tree;
pub mod window;
