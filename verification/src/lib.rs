//! Database layer of a music library: the logic that turns stored rows into
//! playlist and filter trees, that builds the SQL text for song filters and
//! orderings, and that converts values between the store and the domain.

use vstd::prelude::*;

pub mod artwork;
pub mod converts;
pub mod error;
pub mod filter;
pub mod folder;
pub mod model;
pub mod playlist;
pub mod song;
pub mod song_finder;
pub mod song_lister;
pub mod text;

verus! {

} // verus!
