//! Editing and navigation logic of a terminal HTTP client: a line-addressed
//! text buffer and a request tree with hover, selection and expansion state.

pub mod cursor;
pub mod text_spec;
pub mod text_object;
pub mod collection_store;
pub mod sidebar;
pub mod new_collection_form;
