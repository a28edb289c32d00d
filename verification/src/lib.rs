//! Verified core of `snip`, a screenshot annotation tool: the state machines
//! of the drawing tools, the undo/redo history of the editor, the decisions
//! that the editor's input handlers make, and the naming of screenshot files
//! (with the calendar text of a moment and the order of such texts).

pub mod editor;
pub mod history;
pub mod naming;
pub mod stamp;
pub mod tools;
