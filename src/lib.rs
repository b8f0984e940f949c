//! A shared song-request queue: a verified store of queued songs, playlists and
//! recommendation history, the rules that pick the next song to play, the
//! recommendation selector and the playlist importer.

pub mod models;
pub mod text;
pub mod selector;
pub mod store;
pub mod importer;
pub mod youtube;
pub mod handlers;
