pub mod dynamic_buffer;
pub mod dynamic_texture;
