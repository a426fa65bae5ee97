pub mod difficulty;
pub mod frame;
pub mod game;
pub mod invaders;
pub mod level;
pub mod menu;
pub mod player;
pub mod render;
pub mod score;
pub mod shot;
pub mod text;
pub mod timer;
