//! A teletext-style weather map: country templates, weather reports, the
//! mosaic renderer that paints them, and the state machine of the viewer.
pub mod palette;
pub mod text;
pub mod config;
pub mod wttr;
pub mod map;
pub mod app;
pub mod screens;
