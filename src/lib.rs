//! Pixel surface of a small ray tracer: a row-major buffer of packed colours
//! addressed by canvas-centred integer coordinates.
pub mod canvas;
