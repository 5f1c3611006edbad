pub mod by_identifier;
pub mod root;
