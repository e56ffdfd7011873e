//! A one-level directory browser.
//!
//! - [`listing`], [`order`] and [`sort`]: the children of a directory, split
//!   into directories and files and sorted by name.
//! - [`event`] and [`app`]: the events of the terminal and the state of the
//!   viewer that they act on.
//! - [`panel`] and [`render`]: what the viewer shows, as plain values and
//!   drawn on a ratatui buffer.
//! - [`size`]: byte counts as text.
//!
//! Reading the directory and the terminal is left to the program that uses
//! the library.

pub mod app;
pub mod event;
pub mod listing;
pub mod order;
pub mod panel;
pub mod render;
pub mod size;
pub mod sort;
