//! A small framework for fixed-timestep interactive applications: integer
//! rectangle geometry, texture-region sprites with horizontally scrolling
//! parallax layers, a debounced input sampler, and a view state machine
//! driven by a paced frame loop.
//!
//! Rendering and input are kept behind a narrow boundary: views record draw
//! commands into a [`render::Frame`] and read debounced input from an
//! [`events::EventState`]; an embedding program executes the commands on a
//! real backend, supplies the clock, and feeds raw input events in.

pub mod events;
pub mod fonts;
pub mod geom;
pub mod gfx;
pub mod render;
pub mod runtime;
pub mod views;

pub use events::EventState;
pub use geom::Rectangle;
pub use gfx::{ParallaxSprite, Sprite};
pub use runtime::{Phi, Runtime, View, ViewAction};
