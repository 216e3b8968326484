pub mod config;
pub mod discover;
pub mod dispatch;
pub mod lol;
pub mod pipeline;
pub mod queues;
pub mod ranks;
pub mod roster;
pub mod store;
pub mod text;
pub mod tft;
