//! Replays a syntax-highlighted source file as a live typing animation.
//!
//! The compiler in [`parse`] turns styled source lines into a linear stream
//! of edit instructions; the playback engine in [`editor`] applies them one
//! at a time to a document model with a cursor and a scrolling viewport;
//! the pacer in [`pacer`] decides the real-time cadence of delivery.

pub mod editor;
pub mod instruction;
pub mod pacer;
pub mod parse;
pub mod syntax;
