//! Browser-side editor pieces that do not touch the DOM.
pub mod color;
pub mod cursor;
pub mod events;
pub mod dom_sync;
