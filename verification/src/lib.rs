//! A terminal dashboard runtime: a tree of screen regions with widgets bound
//! to its leaves, and the frame step that dispatches input and collects what
//! each widget draws.

pub mod component;
pub mod deck;
pub mod event;
pub mod focus;
pub mod layout;
pub mod list;
pub mod main_menu;
pub mod plan;
pub mod side_menu;
pub mod system;
pub mod text;
pub mod title;
pub mod tree;
pub mod widget;
