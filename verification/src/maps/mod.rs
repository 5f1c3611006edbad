pub mod course;
pub mod description;
pub mod filter;
pub mod name;

pub use self::course::{CourseDescription, CourseName, InvalidCourseDescription, InvalidCourseName};
pub use self::description::{InvalidMapDescription, MapDescription};
pub use self::filter::{FilterNotes, InvalidFilterNotes};
pub use self::name::{InvalidMapName, MapName};
pub mod id;
pub use self::course::{CourseId, ParseCourseIdError};
pub use self::id::{MapId, ParseMapIdError};
pub mod state;
pub mod tier;
pub use self::state::MapState;
pub use self::tier::Tier;
pub mod models;
pub mod handlers;
pub mod routes;
pub mod download;
pub mod stream;
pub mod map;
pub use self::map::{CreateMapError, Filter, FilterId, Filters, Mapper, Metadata, UpdateMapError};
