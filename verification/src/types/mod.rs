pub mod chunk;
pub mod fps;
pub mod safecloner;
