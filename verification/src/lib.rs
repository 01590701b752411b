//! Verified core of TofuBot, a Discord bot: metric tagging, guild and user
//! configuration, custom commands, rank levels, rate limiting of score awards
//! and the texts of the log messages it posts.

pub mod commands;
pub mod dog;
pub mod handler;
pub mod ids;
pub mod logging;
pub mod mongo;
pub mod ranks;
pub mod settings;
pub mod strmap;
pub mod text;
pub mod urban;
pub mod utils;
