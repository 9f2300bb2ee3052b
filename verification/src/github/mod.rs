pub mod discovery;
