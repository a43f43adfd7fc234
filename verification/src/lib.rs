//! An immediate-mode user interface: a font atlas, an input snapshot, a
//! layout cursor and a draw list that is rebuilt on every frame.
//!
//! The window's events overwrite the input state as they arrive. On every
//! redraw a frame is begun, widget calls draw at the layout cursor and answer
//! what the pointer did to them, and the end of the frame hands the draw list
//! over, to be laid out in bytes for the renderer.
//!
//! All geometry is computed in whole pixels and whole texels. Numbers become
//! single-precision bit patterns only on the way to the renderer.

pub mod atlas;
pub mod binary32;
pub mod context;
pub mod draw;
pub mod font;
pub mod frame;
pub mod geometry;
pub mod input;
pub mod pack;
pub mod present;
pub mod wire;

pub use atlas::FontAtlas;
pub use context::{handle_ui_event, Context, FrameError};
pub use draw::{Color, DrawList, Vertex};
pub use font::{FontError, Glyph, RasterFont, RasterGlyph};
pub use geometry::{Extent, Point};
pub use input::{InputState, MouseButton, UiEvent};
pub use wire::{cast, cast_slice, Consts};
