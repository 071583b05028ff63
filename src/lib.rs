pub mod engine;
pub mod in_mem_world;
pub mod pattern;
pub mod recorder;
pub mod world;
