pub mod lol;
pub mod tft;
