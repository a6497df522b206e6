//! Verified page logic of a podcast web client: transcripts, episode lists, downloads,
//! listening history, discovery, the podcast and episode pages, their hosts, and the JSON
//! they exchange with the server.

pub mod text;
pub mod transcript;
pub mod sort;
pub mod episodes;
pub mod selection;
pub mod history;
pub mod downloads;
pub mod feed;
pub mod discover;
pub mod podcast_page;
pub mod episode_page;
pub mod hosts;
pub mod json_replies;
