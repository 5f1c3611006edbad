pub mod parameters;
pub mod responses;
