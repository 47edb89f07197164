//! Scene composition and fog-of-war reveal tracking for a small tile-based
//! character-movement prototype: a fixed logical glyph grid scaled onto a
//! resizable window, a landscape layer that is revealed permanently around the
//! character, and a scrollable, word-wrapped dialogue box.

pub mod viewport;
pub mod fog;
pub mod text;
pub mod scene;
pub mod input;
