//! The save format of a character, from the keystream up to the whole file.

pub mod char;
pub mod gd_file;
pub mod info;
pub mod inventory;
pub mod item;
pub mod keystream;
pub mod lists;
pub mod misc;
pub mod skills;
pub mod stats;
pub mod text;
pub mod wire;
