//! Conway's Game of Life on a rectangular grid whose state is a colour-coded
//! RGBA pixel buffer: a cell is alive exactly when its four bytes equal the
//! configured alive colour.

pub mod grid;
pub mod board;
pub mod settings;
pub mod rules;
pub mod pattern;
pub mod seed;
pub mod brush;
pub mod manager;
pub mod laws;
pub mod ui;
