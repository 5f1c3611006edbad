pub mod description;
pub mod name;

pub use self::description::{CourseDescription, InvalidCourseDescription};
pub use self::name::{CourseName, InvalidCourseName};
pub mod id;
pub use self::id::{CourseId, ParseCourseIdError};
