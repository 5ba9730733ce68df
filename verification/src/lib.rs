//! A terminal arcade shooter's simulation engine.
//!
//! The engine holds the whole game state — player column, enemy wave,
//! optional boss, bullets, powerups, explosions and the score, lives and
//! level bookkeeping — and advances it one fixed logical tick at a time.
//! A presentation driver owns the terminal: it feeds discrete commands in,
//! reads the state snapshot out, and persists the high score. The engine
//! itself performs no I/O; randomness enters only through a small trusted
//! wrapper, and wall-clock time is handed in as elapsed seconds.

pub mod entities;
pub mod game;
pub mod highscore;
mod rng;
