//! Rusting Raceway's game logic, verified: input flags, the menu's screens and
//! settings, the screen states, the shape of the track paths, and how players move
//! along their paths.

pub mod args;
pub mod components;
pub mod gameplay;
pub mod inputs;
pub mod menu;
pub mod physics;
pub mod states;
