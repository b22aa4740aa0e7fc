pub mod cache;
pub mod chunk_cache;
pub mod chunk;
pub mod uniforms;
pub mod commands;
pub mod font_atlas;
