pub mod client;
pub mod engine;
pub mod messaging;
pub mod model;
pub mod text;
