pub mod errors;
pub mod keys;
pub mod pacing;
pub mod playlist;
pub mod rewrite;
pub mod segments;
pub mod tags;
pub mod util;
