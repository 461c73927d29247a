//! Tailwind-style shade ramps derived from a single colour.
//!
//! A palette is generated in three steps: the reference table is loaded
//! (`reference`), the family and anchor shade closest to the input are
//! resolved (`resolver`), and every shade of that family is derived anew
//! around the input (`generator`). Colour conversions are done by the colour
//! engine (`engine`), numbers are fixed-point decimals (`decimal`, `hsl`).

pub mod colors;
pub mod decimal;
pub mod engine;
pub mod family;
pub mod generator;
pub mod hsl;
pub mod palette;
pub mod reference;
pub mod resolver;

pub use family::{GeneratedColorFamily, Shade};
pub use palette::{TailwindPalette, TailwindShade};
