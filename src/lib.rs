pub mod buffer;
pub mod input;
pub mod pipeline;
pub mod sprite;
pub mod sprites;
pub mod vector;
pub mod world;
