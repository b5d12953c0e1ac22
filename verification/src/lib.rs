//! A terminal arcade shooter, verified: a player ship fires at a descending
//! invader formation on a character-cell grid. The simulation (player,
//! fleet, collisions, win/lose rules), the frame composition and the
//! diff-based renderer state are all verified; terminal and audio I/O live
//! in the surrounding binary.

pub mod audio;
pub mod frame;
pub mod game;
pub mod invaders;
pub mod player;
pub mod render;

pub use audio::AudioActions;
