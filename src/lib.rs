//! A keyboard-driven board of sticky notes grouped into stacks: the note
//! store, focus navigation, the edit-mode state machine, key dispatch, note
//! text editing and the grid layout, each with its contract.

pub mod edit;
pub mod layout;
pub mod notes;
pub mod session;
pub mod text;
