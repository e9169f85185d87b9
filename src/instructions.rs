pub mod create_button;
pub mod like_button;
