//! Planning and sequencing of a single composed raster frame.
//!
//! A frame is described as a script of small drawing actions: the surface
//! to allocate, the background to clear to, the transforms each element is
//! placed under, the elements to render and the final encoding. A driver
//! that owns a rasteriser carries the actions out one by one and reports
//! how each went; the [`pipeline::Pipeline`] decides what happens next.
//! Nothing here draws a pixel: the crate states, and proves, what is asked
//! of the rasteriser and in which order.

pub mod action;
pub mod assets;
pub mod composer;
pub mod config;
pub mod effect;
pub mod element;
pub mod laws;
pub mod model;
pub mod path;
pub mod pipeline;
pub mod renderers;
pub mod run;
pub mod scope;
pub mod text;
