//! Game logic of a quiz buzzer system: a board with six buttons reports button
//! presses, and the server runs one of several games on them, deciding which
//! button LEDs light up and which sounds are played.

pub mod app_config;
pub mod audio;
pub mod devboard;
pub mod devboard_controller;
pub mod game;
pub mod quiz_mode;
