//! Layout and compositing of mixed text-and-pictograph runs onto a raster
//! canvas.
//!
//! A caller supplies an ordered sequence of tokens -- plain text runs,
//! standard pictographs carried as raw image bytes, and custom pictographs
//! referenced by URL.  The compositor walks the sequence left to right with a
//! horizontal cursor, painting glyph runs and resized pictographs onto the
//! canvas and advancing the cursor by each unit's width.  A pictograph whose
//! bytes fail to decode, or whose fetch fails, is skipped silently: it leaves
//! no trace on the canvas and contributes no advance.

pub mod canvas;
pub mod compositor;
pub mod fetch;
pub mod metrics;
pub mod style;
pub mod token;
