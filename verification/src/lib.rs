//! Game logic of a small grid raycaster: tile and enemy kinds, the grid map,
//! the entity registry, the state file format, player controls and pixel drawing.
pub mod cells;
pub mod enemy;
pub mod error;
pub mod lecture;
pub mod map;
pub mod player;
pub mod ray;
pub mod screen;
pub mod state;
pub mod state_file;
pub mod text;
pub mod tiles;
pub mod weapon;
