//! The Files pane's logic: the tree model, the tree view's state, the editor's
//! document state and keymap, and the file action forms.
pub mod actions;
pub mod editor_doc;
pub mod keys;
pub mod model;
pub mod tree;
