pub mod manager;
pub mod patrol;
