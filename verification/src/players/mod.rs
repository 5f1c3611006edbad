pub mod models;
pub mod name;
pub mod rating;

pub use self::models::{CourseSessionID, CreatedGameSession, GameSessionID, Player};
pub use self::name::{InvalidPlayerName, PlayerName};
pub use self::rating::{FloatClass, InvalidPlayerRating};
