//! Robots moving on a bounded grid of cells, leaving a scent behind at the
//! edge where one of them is lost so that later robots do not fall the same way.

pub mod heading;
pub mod location;
pub mod robot;
pub mod text;
pub mod world;
pub mod simulation;
