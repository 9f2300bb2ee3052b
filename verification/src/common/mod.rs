pub mod models;
pub mod config;
pub mod leaderboard;
