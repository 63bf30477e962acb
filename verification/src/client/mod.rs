pub mod game;
pub mod grab;
pub mod turn;
