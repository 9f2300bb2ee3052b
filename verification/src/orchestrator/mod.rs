pub mod pipeline;
pub mod memory;
pub mod steps;
pub mod runs;
