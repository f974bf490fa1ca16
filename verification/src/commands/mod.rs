//! The bot's commands.

pub mod set_log_level;
