//! The model underneath a terminal front-end for a version-control working
//! tree: patches, the item tree, screens, and the rules that decide when a
//! command may run.

pub mod command;
pub mod diff;
pub mod dispatch;
pub mod git;
pub mod items;
pub mod keys;
pub mod patch;
pub mod screen;
pub mod state;
pub mod status;
pub mod text;
pub mod tree;
