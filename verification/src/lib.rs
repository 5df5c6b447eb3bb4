//! Small verified game and simulation library: a deductive digit-guessing
//! game, a birthday-paradox Monte Carlo sampler, and a pattern text renderer.

pub mod birthday;
pub mod clues;
mod errors;
pub mod game;
pub mod numbers;
pub mod render;
mod rng;
mod strbuf;

pub use birthday::find_collision;
pub use birthday::run_trials;
pub use birthday::sample_days;
pub use birthday::validate_sample_size;
pub use clues::ClueSet;
pub use clues::clue_text;
pub use clues::get_clues;
pub use clues::score;
pub use errors::RenderError;
pub use errors::ValidationError;
pub use game::Game;
pub use game::GameStatus;
pub use game::GuessOutcome;
pub use game::generate_secret;
pub use game::validate_guess;
pub use render::render;
