//! A monospace character-grid layout engine.
//!
//! A [`grid::Grid`] is a fixed-size rectangular canvas of styled character
//! cells. A [`layout::LayoutContext`] describes a rectangular region of that
//! grid together with ambient style colors; layout primitives derive smaller
//! child regions from it (framing, splitting, padding), and content writers
//! fill a region with plain text, markup-styled text, or an image rendered
//! as glyphs.

pub mod grid;
pub mod layout;
pub mod text;
