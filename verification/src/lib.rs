//! A small core for a stack-based terminal application shell: a fixed-width
//! table renderer (column layout, truncation, alignment) and a page-stack
//! navigator that applies navigation actions produced by pages.

pub mod navigator;
pub mod page_helpers;
pub mod pages;
pub mod table;
pub mod text;
