//! Viewport scrolling and text reflow for fixed-size terminal regions.
//!
//! `scroll` keeps a viewport offset in step with a selection cursor, `glyph`
//! measures and classifies grapheme clusters, `text` flattens styled lines into
//! a grapheme stream, `reflow` packs that stream into display lines, and
//! `paragraph` decides which cells of a region one frame paints.
//!
//! Four modules hold what is proved of the composers: `bounds` that no line
//! is wider than the target, `content` that wrapping loses no grapheme, and
//! when it trims nothing but blanks,
//! `offset` what clipping keeps of a line that is scrolled sideways, and
//! `shown` that a frame paints the composed lines whole where they have room.
//! `database` holds the rows of schema metadata that the views display.

pub mod bounds;
pub mod content;
pub mod database;
pub mod glyph;
pub mod offset;
pub mod paragraph;
pub mod reflow;
pub mod scroll;
pub mod shown;
pub mod text;
