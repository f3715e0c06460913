//! Core logic of a terminal Spotify client: the application state and its
//! event reducer, list navigation, library statistics, the Spotify Web API
//! request/response rules, text formatting for the panes and the cover-art
//! escape-sequence encoder.

pub mod text;
pub mod model;
pub mod stats;
pub mod encoding;
pub mod profile;
pub mod trackmenu;
pub mod cover;
pub mod api;
pub mod settings;
pub mod state;
pub mod reducer;
pub mod laws;
pub mod app;
pub mod control;
pub mod schedule;
pub mod panes;
pub mod profile_view;
pub mod layout;
