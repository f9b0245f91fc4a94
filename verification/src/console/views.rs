//! The content of the console's views, as plain values ready to be drawn.

pub mod bottom_bar;
pub mod format;
pub mod threads;
