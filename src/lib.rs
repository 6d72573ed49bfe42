//! Game logic for a small duck shooting game: a repeating timer, ducks that
//! fly, fall and die, a spawner, hit testing and the per-frame update of the
//! whole world. Distances are integers in micropixels and times are integers
//! in nanoseconds.
pub mod duck;
pub mod timer;
pub mod world;
