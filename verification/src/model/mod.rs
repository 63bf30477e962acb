pub mod class;
pub mod game;
pub mod gameerror;
pub mod gamestate;
pub mod impact;
pub mod occupation;
pub mod orientation;
pub mod player;
pub mod point;
pub mod range;
pub mod ship;
pub mod size;
pub mod status;
