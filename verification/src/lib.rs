//! A terminal drawing library: a rectangular canvas of styled character
//! cells with bounded, mode-aware write operations, text and binary
//! serialization of the cell grid, and a constraint-based layout allocator
//! that distributes terminal space among sibling widgets along one axis.

pub mod app;
pub mod canvas;
pub mod character;
pub mod copy_over;
pub mod drawable;
pub mod error;
pub mod layout;
pub mod loader;
pub mod loader_bin;
pub mod loader_txt;
pub mod mapping;
pub mod size_error;
pub mod spacer;
pub mod status_bar;
pub mod style;
pub mod widget_canvas;
