//! Cast YouTube videos to a TV over the Lounge API: the rules behind the command line.

pub mod cast;
pub mod config;
pub mod devices;
pub mod dial;
pub mod figures;
pub mod json;
pub mod lists;
pub mod lucky;
pub mod parse;
pub mod playlet;
pub mod search;
pub mod slug;
pub mod text;
pub mod transcript;
pub mod transport;
pub mod web;
