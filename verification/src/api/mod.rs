//! The HTTP API over stored earthquakes.

pub mod earthquakes;
