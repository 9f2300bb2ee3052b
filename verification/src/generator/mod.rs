pub mod engine;
pub mod scorer;
