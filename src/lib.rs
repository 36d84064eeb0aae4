//! Metadata from media file names: title, year, languages, encodings,
//! resolution and quality, read from loosely conventional release names.
use vstd::prelude::*;

pub mod imdb;
pub mod laws;
pub mod parse;
pub mod scan;
pub mod title;
pub mod tokens;
pub mod vocab;

verus! {

} // verus!
