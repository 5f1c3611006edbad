use vstd::prelude::*;

pub mod maps;
pub mod mode;
pub mod openapi;
pub mod players;
pub mod servers;
pub mod users;
pub mod kz;
pub mod checksum;
pub mod plugin;
pub mod points;
pub mod records;
pub mod text;

verus! {

} // verus!
