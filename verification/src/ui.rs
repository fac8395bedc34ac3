//! What the window shows, decided apart from the drawing.

pub mod calendar_view;
