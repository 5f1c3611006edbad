pub mod notes;

pub use self::notes::{FilterNotes, InvalidFilterNotes};
