//! Drawing helpers: the slot arena, font atlas layout and rectangle batching.
pub mod arena;
pub mod font;
pub mod rectangle;
