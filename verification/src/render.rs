//! What is drawn, as text: how it is laid out, and what is left out where there is no room for it.

pub mod body;
pub mod footer;
pub mod lines;
pub mod panel;
pub mod screen;
pub mod table;
