//! Reading, changing and writing the save files of Grim Dawn characters.
//!
//! A save file is a run of plain values, masked byte by byte with a key that
//! the file's first four bytes seed. [`gd::wire`] says what those values are
//! and which bytes they become, [`gd::gd_file`] reads and writes them, and
//! the other modules hold the records of a character, each with the laws
//! that tie its reader to its writer.

pub mod gd;
