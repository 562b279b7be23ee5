//! The interactive PDB browser: the tree of PDB contents and the navigation through it, the
//! focus between panels and what each key does, and the text that the details panel shows.

pub mod content;
pub mod navigation;
pub mod state;
pub mod streams;
pub mod widgets;
