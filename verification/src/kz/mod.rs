//! The KZ domain vocabulary that the rest of the API builds on: modes, the
//! ranked and global statuses, SteamIDs, and identifier types.

pub mod name_or_id;
pub mod types;

pub use self::name_or_id::{CourseIdentifier, MapIdentifier, NameOrID, ServerIdentifier};
pub use self::types::{GlobalStatus, Mode, RankedStatus, SteamID};
