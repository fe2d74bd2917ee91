//! A status bar for the desktop: blocks of text are rendered to bitmaps,
//! placed left, centred and right on a bar, and pointer events are routed
//! back to the block under the pointer.
//!
//! The library decides and computes; it does no input or output. Whatever
//! has to be done outside it, it asks for: a block that needs the output of
//! a command or the glyphs of a text answers a rendering with that request,
//! and reading the settings answers with the file that has to be loaded
//! first.
//!
//! - [`bitmap`]: pixels and images, and alpha blending.
//! - [`mouse`]: pointer events.
//! - [`modules`]: the blocks, what they render and how they take pointer
//!   events, and the modules that make them.
//! - [`create_bar`]: putting the bar together, routing pointer events, and
//!   the state of a running bar.
//! - [`parse_input`]: the settings, read from a TOML document.

pub mod bitmap;
pub mod create_bar;
pub mod modules;
pub mod mouse;
pub mod parse_input;
