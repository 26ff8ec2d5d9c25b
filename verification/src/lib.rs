//! Replaces files inside a GameCube disc image.
//!
//! A disc image holds a file-system table: one 12-byte entry per file and
//! directory, with the offset and the size of every file. To put a payload of
//! another size in the place of a file, the table has to be rewritten, since
//! the files behind the replaced one move, and the image has to be put
//! together again around the rewritten table. This library does both, on
//! bytes in memory, and its functions are verified against contracts that say
//! what they return.
//!
//! The work is done by four parts, each building on the ones before:
//!
//! * [`parse`] decodes the table into entries.
//! * [`index`] keeps one update record per file, found by the offset that
//!   the file has in the source image, and finds the record that a
//!   replacement is aimed at by its name.
//! * [`propagate`] applies one replacement to the index: it exchanges the
//!   payload of its target and moves the files behind it.
//! * [`table`] writes the updated offsets and sizes back into the table, and
//!   [`image`] assembles the image from the preamble, the table and the
//!   payloads.
//!
//! [`replace`] strings the parts together: [`replace::rebuild_fst`] rebuilds
//! the table for a queue of replacements and [`replace::build_iso`] the image.
//! [`laws`] proves what holds of every rebuild. [`characters`] names the files
//! that can be replaced, [`catalog`] tells what such a name stands for,
//! [`generate`] writes the source text of the catalog for the files of an
//! image, and [`search`] looks up DAT files in the listing of an image.

pub mod catalog;
pub mod characters;
pub mod error;
pub mod generate;
pub mod image;
pub mod index;
pub mod laws;
pub mod parse;
pub mod propagate;
pub mod record;
pub mod replace;
pub mod search;
pub mod table;
