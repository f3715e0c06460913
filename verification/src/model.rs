//! The library's records: tracks, playlists, devices, playback and the user.

use vstd::prelude::*;

verus! {

/// One track as listed in the explorer, the liked songs and the search index.
#[derive(Debug)]
pub struct TrackSummary {
    pub id: String,
    pub name: String,
    pub artist: String,
    pub album: String,
    pub album_image_url: Option<String>,
    pub duration_ms: u32,
}

impl Clone for TrackSummary {
    fn clone(&self) -> (r: Self)
        ensures
            r == *self,
    {
        TrackSummary {
            id: self.id.clone(),
            name: self.name.clone(),
            artist: self.artist.clone(),
            album: self.album.clone(),
            album_image_url: self.album_image_url.clone(),
            duration_ms: self.duration_ms,
        }
    }
}

/// One playlist of the user's library as listed in the sidebar.
#[derive(Debug)]
pub struct PlaylistSummary {
    pub id: String,
    pub name: String,
    pub track_count: u32,
    /// Whether the signed-in user owns the playlist.
    pub owner: bool,
    pub image_url: Option<String>,
}

impl Clone for PlaylistSummary {
    fn clone(&self) -> (r: Self)
        ensures
            r == *self,
    {
        PlaylistSummary {
            id: self.id.clone(),
            name: self.name.clone(),
            track_count: self.track_count,
            owner: self.owner,
            image_url: self.image_url.clone(),
        }
    }
}

/// What the player reports as currently playing.
#[derive(Debug)]
pub struct PlaybackState {
    pub track_id: String,
    pub track_name: String,
    pub artist: String,
    pub album: String,
    pub album_image_url: Option<String>,
    pub duration_ms: u32,
    pub progress_ms: u32,
    pub is_playing: bool,
    pub device_id: Option<String>,
}

impl Clone for PlaybackState {
    fn clone(&self) -> (r: Self)
        ensures
            r == *self,
    {
        PlaybackState {
            track_id: self.track_id.clone(),
            track_name: self.track_name.clone(),
            artist: self.artist.clone(),
            album: self.album.clone(),
            album_image_url: self.album_image_url.clone(),
            duration_ms: self.duration_ms,
            progress_ms: self.progress_ms,
            is_playing: self.is_playing,
            device_id: self.device_id.clone(),
        }
    }
}

/// A playback device of the user's account.
#[derive(Debug)]
pub struct Device {
    pub id: String,
    pub name: String,
    pub is_active: bool,
}

impl Clone for Device {
    fn clone(&self) -> (r: Self)
        ensures
            r == *self,
    {
        Device { id: self.id.clone(), name: self.name.clone(), is_active: self.is_active }
    }
}

/// The signed-in user's public profile.
#[derive(Debug)]
pub struct UserProfile {
    pub display_name: String,
    pub id: String,
    pub email: Option<String>,
    pub country: Option<String>,
    /// "premium" or "free"
    pub product: Option<String>,
    pub followers: u32,
    pub avatar_url: Option<String>,
}

impl Clone for UserProfile {
    fn clone(&self) -> (r: Self)
        ensures
            r == *self,
    {
        UserProfile {
            display_name: self.display_name.clone(),
            id: self.id.clone(),
            email: self.email.clone(),
            country: self.country.clone(),
            product: self.product.clone(),
            followers: self.followers,
            avatar_url: self.avatar_url.clone(),
        }
    }
}

impl Default for UserProfile {
    fn default() -> (r: Self)
        ensures
            r.display_name@ == Seq::<char>::empty(),
            r.id@ == Seq::<char>::empty(),
            r.email is None,
            r.country is None,
            r.product is None,
            r.followers == 0,
            r.avatar_url is None,
    {
        UserProfile {
            display_name: String::new(),
            id: String::new(),
            email: None,
            country: None,
            product: None,
            followers: 0,
            avatar_url: None,
        }
    }
}

/// Figures about the user's library, derived from the loaded playlists and
/// liked tracks.
#[derive(Debug, Clone)]
pub struct UserStats {
    pub total_liked: u32,
    pub total_playlists: u32,
    pub owned_playlists: u32,
    pub unique_artists: u32,
    pub unique_albums: u32,
    pub total_duration_ms: u64,
    /// Most frequent artists of the liked tracks, most frequent first.
    pub top_artists: Vec<String>,
    /// Most frequent albums of the liked tracks, most frequent first.
    pub top_albums: Vec<String>,
}

impl Default for UserStats {
    fn default() -> (r: Self)
        ensures
            r.total_liked == 0,
            r.total_playlists == 0,
            r.owned_playlists == 0,
            r.unique_artists == 0,
            r.unique_albums == 0,
            r.total_duration_ms == 0,
            r.top_artists@.len() == 0,
            r.top_albums@.len() == 0,
    {
        UserStats {
            total_liked: 0,
            total_playlists: 0,
            owned_playlists: 0,
            unique_artists: 0,
            unique_albums: 0,
            total_duration_ms: 0,
            top_artists: Vec::new(),
            top_albums: Vec::new(),
        }
    }
}

/// The text views of a list of strings.
pub open spec fn texts(v: Seq<String>) -> Seq<Seq<char>> {
    v.map_values(|s: String| s@)
}

/// The ids of a list of tracks.
pub open spec fn track_ids(v: Seq<TrackSummary>) -> Seq<Seq<char>> {
    v.map_values(|t: TrackSummary| t.id@)
}

} // verus!
