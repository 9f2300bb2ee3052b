pub mod provider;
pub mod retry;
