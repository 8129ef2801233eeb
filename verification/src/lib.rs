//! Verified core of a Telegram bot that watches Polymarket sports markets and
//! renders LaTeX reports: the decisions, text formats and data selection of the
//! bot live here, while network, file and process I/O stay in the application.
pub mod config;
pub mod decimal;
pub mod timestamp;
pub mod events;
pub mod json;
pub mod latex;
pub mod orderbook;
pub mod preview;
pub mod report;
pub mod telegram;
pub mod ws;
