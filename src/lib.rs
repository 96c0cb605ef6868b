pub mod board;
pub mod game_mode;
pub mod laws;
pub mod model;
pub mod snake;

pub use board::{Direction, Point};
pub use game_mode::GameMode;
pub use model::{GameView, Glyph, DRAW, NO_WINNER, PLAYER_ONE, PLAYER_TWO};
pub use snake::{create, GameError, Multiplayer, SnakeGame, FOOD_ATTEMPTS};
