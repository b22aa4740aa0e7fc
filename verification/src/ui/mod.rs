pub mod anchor;
pub mod comp;
pub mod input;
pub mod rect;
pub mod region;
pub mod res;
pub mod text;
pub mod terminal;
pub mod widget;
pub mod system;
pub mod builder;
pub mod console;
pub mod id;
