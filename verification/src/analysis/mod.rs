pub mod ast_intel;
pub mod compressor;
pub mod strategies;
