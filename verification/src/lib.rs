//! An interactive generalized-Life cellular-automaton engine: a rectangular
//! grid of binary cells advanced one generation at a time under a
//! configurable birth/survival rule, with an editing mode in which a clamped
//! cursor toggles individual cells. The host drives the engine with discrete
//! messages and reads the grid, mode and cursor back for rendering.

pub mod config;
pub mod grid;
pub mod model;
pub mod preset;
pub mod rule;
