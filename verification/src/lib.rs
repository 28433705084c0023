//! Core of a terminal document viewer: page layout, the bounded image
//! registry, bitmap placement and the terminal graphics wire format.

pub mod bar;
pub mod commands;
pub mod config;
pub mod control;
pub mod document;
pub mod geometry;
pub mod graphics;
pub mod hint;
pub mod image;
pub mod input;
pub mod migrate;
pub mod placement;
pub mod registry;
pub mod renderer;
pub mod viewer;
