pub mod chunk;
pub mod terrain;
pub mod index_buffer;
pub mod atlas;
pub mod frame;
pub mod mesh;
pub mod stages;
