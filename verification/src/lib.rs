//! Finds highlights in Twitch broadcasts from their chat, with the parsing,
//! scoring and clipping logic verified by Verus.

pub mod analysis;
pub mod chat;
pub mod clips;
pub mod decimal;
pub mod emotes;
pub mod eventsub;
pub mod parser;
pub mod queue;
pub mod text;
pub mod twitch;
pub mod video;
pub mod vods;
