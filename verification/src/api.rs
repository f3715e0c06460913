//! The Spotify Web API as the client uses it: the shapes of the responses it
//! reads, how they become the library's records, and the rules for pages,
//! retries and status codes.

use vstd::prelude::*;
use crate::model::{Device, PlaybackState, PlaylistSummary, TrackSummary, UserProfile};
use crate::text::{contains_word, decimal, has_word, is_blank, is_white, push_decimal, text_eq};
use crate::encoding::{hex_lower, percent_encoded, url_encode};
use vstd::string::StringSliceAdditionalSpecFns;
use vstd::string::StringExecFns;

verus! {

/// An image entry of an API object.
#[derive(Debug)]
pub struct RawImage {
    pub url: String,
    pub width: Option<u32>,
}

/// An artist entry of a track.
#[derive(Debug)]
pub struct RawArtist {
    pub name: String,
}

/// The album of a track.
#[derive(Debug)]
pub struct RawAlbum {
    pub name: String,
    pub images: Option<Vec<RawImage>>,
}

/// A track object.
#[derive(Debug)]
pub struct RawTrack {
    pub id: Option<String>,
    pub name: String,
    pub duration_ms: u32,
    pub artists: Vec<RawArtist>,
    pub album: Option<RawAlbum>,
}

/// The item count of a playlist.
#[derive(Debug)]
pub struct RawMeta {
    pub total: u32,
}

/// The owner of a playlist.
#[derive(Debug)]
pub struct RawOwner {
    pub id: String,
}

/// A playlist object of the user's playlist listing. The item count comes
/// under `items` in current responses and under `tracks` in older ones.
#[derive(Debug)]
pub struct RawPlaylist {
    pub id: String,
    pub name: String,
    pub track_meta_new: Option<RawMeta>,
    pub tracks: Option<RawMeta>,
    pub owner: Option<RawOwner>,
    pub images: Option<Vec<RawImage>>,
}

/// An entry of a playlist's item listing; the track comes under `item` in
/// current responses and under `track` in older ones.
#[derive(Debug)]
pub struct RawPlaylistItem {
    pub item: Option<RawTrack>,
    pub track: Option<RawTrack>,
}

/// An entry of the saved-tracks listing.
#[derive(Debug)]
pub struct RawSaved {
    pub track: RawTrack,
}

/// A device of the device listing.
#[derive(Debug)]
pub struct RawDevice {
    pub id: Option<String>,
    pub name: String,
    pub is_active: bool,
}

/// The follower count of a user.
#[derive(Debug)]
pub struct RawFollowers {
    pub total: u32,
}

/// The current user's profile object.
#[derive(Debug)]
pub struct RawMe {
    pub id: String,
    pub display_name: Option<String>,
    pub email: Option<String>,
    pub country: Option<String>,
    pub product: Option<String>,
    pub followers: Option<RawFollowers>,
    pub images: Option<Vec<RawImage>>,
}

/// The device of the player object.
#[derive(Debug)]
pub struct RawPlayerDevice {
    pub id: Option<String>,
}

/// The player object.
#[derive(Debug)]
pub struct RawPlayer {
    pub is_playing: bool,
    pub progress_ms: Option<u32>,
    pub item: Option<RawTrack>,
    pub device: Option<RawPlayerDevice>,
}

// ── Images ──────────────────────────────────────────────────────────────────

/// Images at least 300 pixels wide, or of unknown width, are good sources for
/// downscaling.
pub open spec fn image_eligible(i: RawImage) -> bool {
    match i.width {
        Some(w) => w >= 300,
        None => true,
    }
}

/// The width an image is ranked by; unknown widths rank as 9999.
pub open spec fn image_rank(i: RawImage) -> nat {
    match i.width {
        Some(w) => w as nat,
        None => 9999,
    }
}

/// Index `j` holds the first of the smallest eligible images.
pub open spec fn is_best_image(imgs: Seq<RawImage>, j: int) -> bool {
    &&& 0 <= j < imgs.len()
    &&& image_eligible(imgs[j])
    &&& forall|k: int| 0 <= k < imgs.len() && image_eligible(#[trigger] imgs[k]) ==> image_rank(imgs[j]) <= image_rank(imgs[k])
    &&& forall|k: int| 0 <= k < j && image_eligible(#[trigger] imgs[k]) ==> image_rank(imgs[k]) > image_rank(imgs[j])
}

/// The entries of an optional image list.
pub open spec fn image_list(images: Option<Vec<RawImage>>) -> Option<Seq<RawImage>> {
    match images {
        Some(v) => Some(v@),
        None => None,
    }
}

/// The URL of the image to show: the smallest image at least 300 pixels
/// wide (or of unknown width), the first of equals; the first image when none
/// qualifies; nothing when there are no images.
pub open spec fn best_image_url(images: Option<Seq<RawImage>>) -> Option<Seq<char>> {
    match images {
        None => None,
        Some(imgs) => if imgs.len() == 0 {
            None
        } else if exists|j: int| is_best_image(imgs, j) {
            Some(imgs[choose|j: int| is_best_image(imgs, j)].url@)
        } else {
            Some(imgs[0].url@)
        },
    }
}

proof fn lemma_best_unique(imgs: Seq<RawImage>, j: int)
    requires
        is_best_image(imgs, j),
    ensures
        forall|k: int| is_best_image(imgs, k) ==> k == j,
{
    assert forall|k: int| is_best_image(imgs, k) implies k == j by {
        if k < j {
            assert(image_rank(imgs[k]) > image_rank(imgs[j]));
        } else if j < k {
            assert(image_rank(imgs[j]) > image_rank(imgs[k]));
        }
    }
}

fn rank_of(i: &RawImage) -> (r: u32)
    ensures
        r == image_rank(*i),
{
    match i.width {
        Some(w) => w,
        None => 9999,
    }
}

fn eligible(i: &RawImage) -> (r: bool)
    ensures
        r == image_eligible(*i),
{
    match i.width {
        Some(w) => w >= 300,
        None => true,
    }
}

/// Picks the URL of the image to show among `images` (see `best_image_url`).
pub fn best_image(images: &Option<Vec<RawImage>>) -> (r: Option<String>)
    ensures
        text_of(r) == best_image_url(image_list(*images)),
{
    let imgs = match images {
        Some(v) => v,
        None => return None,
    };
    if imgs.len() == 0 {
        return None;
    }
    let mut best: usize = 0;
    let mut found = false;
    let mut i: usize = 0;
    while i < imgs.len()
        invariant
            i <= imgs.len(),
            found ==> best < i && image_eligible(imgs@[best as int]),
            found ==> forall|k: int| 0 <= k < i && image_eligible(#[trigger] imgs@[k]) ==> image_rank(imgs@[best as int]) <= image_rank(imgs@[k]),
            found ==> forall|k: int| 0 <= k < best && image_eligible(#[trigger] imgs@[k]) ==> image_rank(imgs@[k]) > image_rank(imgs@[best as int]),
            !found ==> forall|k: int| 0 <= k < i ==> !image_eligible(#[trigger] imgs@[k]),
        decreases imgs.len() - i,
    {
        if eligible(&imgs[i]) {
            if !found || rank_of(&imgs[i]) < rank_of(&imgs[best]) {
                best = i;
                found = true;
            }
        }
        i = i + 1;
    }
    if found {
        proof {
            assert(is_best_image(imgs@, best as int));
            lemma_best_unique(imgs@, best as int);
            let c = choose|j: int| is_best_image(imgs@, j);
            assert(c == best as int);
        }
        Some(imgs[best].url.clone())
    } else {
        assert(!exists|j: int| is_best_image(imgs@, j)) by {
            if exists|j: int| is_best_image(imgs@, j) {
                let j = choose|j: int| is_best_image(imgs@, j);
                assert(image_eligible(imgs@[j]));
            }
        }
        Some(imgs[0].url.clone())
    }
}

// ── Tracks ──────────────────────────────────────────────────────────────────

/// The text of an optional string.
pub open spec fn text_of(s: Option<String>) -> Option<Seq<char>> {
    match s {
        Some(t) => Some(t@),
        None => None,
    }
}

/// The text of an optional string, empty when absent.
pub open spec fn text_or_empty(s: Option<String>) -> Seq<char> {
    match s {
        Some(t) => t@,
        None => Seq::empty(),
    }
}

/// The summary shown for a track object: its id (empty for local files), its
/// name, its first artist, its album and the album's best image.
pub open spec fn track_summary_of(t: RawTrack, s: TrackSummary) -> bool {
    &&& s.id@ == text_or_empty(t.id)
    &&& s.name@ == t.name@
    &&& s.artist@ == if t.artists.len() > 0 { t.artists@[0].name@ } else { Seq::empty() }
    &&& s.album@ == match t.album {
        Some(a) => a.name@,
        None => Seq::empty(),
    }
    &&& text_of(s.album_image_url) == match t.album {
        Some(a) => best_image_url(image_list(a.images)),
        None => None,
    }
    &&& s.duration_ms == t.duration_ms
}

fn string_or_empty(s: &Option<String>) -> (r: String)
    ensures
        r@ == text_or_empty(*s),
{
    match s {
        Some(t) => t.clone(),
        None => String::new(),
    }
}

/// Builds the summary of a track object.
pub fn to_summary(t: &RawTrack) -> (s: TrackSummary)
    ensures
        track_summary_of(*t, s),
{
    let artist = if t.artists.len() > 0 { t.artists[0].name.clone() } else { String::new() };
    let (album, album_image_url) = match &t.album {
        Some(a) => {
            (a.name.clone(), best_image(&a.images))
        },
        None => (String::new(), None),
    };
    TrackSummary {
        id: string_or_empty(&t.id),
        name: t.name.clone(),
        artist,
        album,
        album_image_url,
        duration_ms: t.duration_ms,
    }
}

} // verus!

verus! {

// ── Listings ────────────────────────────────────────────────────────────────

/// The item count of a playlist object: `items.total`, else `tracks.total`,
/// else 0.
pub open spec fn playlist_total(p: RawPlaylist) -> u32 {
    match p.track_meta_new {
        Some(m) => m.total,
        None => match p.tracks {
            Some(m) => m.total,
            None => 0,
        },
    }
}

/// The sidebar entry for a playlist object listed for user `user_id`.
pub open spec fn playlist_summary_of(p: RawPlaylist, user_id: Seq<char>, s: PlaylistSummary) -> bool {
    &&& s.id@ == p.id@
    &&& s.name@ == p.name@
    &&& s.track_count == playlist_total(p)
    &&& s.owner == match p.owner {
        Some(o) => o.id@ == user_id,
        None => false,
    }
    &&& text_of(s.image_url) == best_image_url(image_list(p.images))
}

/// Builds the sidebar entry for a playlist object listed for `user_id`.
pub fn playlist_summary(p: &RawPlaylist, user_id: &str) -> (s: PlaylistSummary)
    ensures
        playlist_summary_of(*p, user_id@, s),
{
    let track_count = match &p.track_meta_new {
        Some(m) => m.total,
        None => match &p.tracks {
            Some(m) => m.total,
            None => 0,
        },
    };
    let owner = match &p.owner {
        Some(o) => text_eq(o.id.as_str(), user_id),
        None => false,
    };
    PlaylistSummary {
        id: p.id.clone(),
        name: p.name.clone(),
        track_count,
        owner,
        image_url: best_image(&p.images),
    }
}

/// Builds the sidebar entries for a page of the playlist listing, in order.
pub fn playlist_page_summaries(items: &Vec<RawPlaylist>, user_id: &str) -> (r: Vec<PlaylistSummary>)
    ensures
        r.len() == items.len(),
        forall|i: int| 0 <= i < items.len() ==> playlist_summary_of(items@[i], user_id@, #[trigger] r@[i]),
{
    let mut r: Vec<PlaylistSummary> = Vec::new();
    let mut i: usize = 0;
    while i < items.len()
        invariant
            i <= items.len(),
            r.len() == i,
            forall|k: int| 0 <= k < i ==> playlist_summary_of(items@[k], user_id@, #[trigger] r@[k]),
        decreases items.len() - i,
    {
        r.push(playlist_summary(&items[i], user_id));
        i = i + 1;
    }
    r
}

/// The track of a playlist entry: `item`, else `track`.
pub open spec fn entry_track(e: RawPlaylistItem) -> Option<RawTrack> {
    match e.item {
        Some(t) => Some(t),
        None => e.track,
    }
}

/// The entries of a playlist listing that carry a track.
pub open spec fn entries_with_track(items: Seq<RawPlaylistItem>) -> Seq<RawTrack>
    decreases items.len(),
{
    if items.len() == 0 {
        Seq::empty()
    } else {
        let rest = entries_with_track(items.drop_last());
        match entry_track(items.last()) {
            Some(t) => rest.push(t),
            None => rest,
        }
    }
}

/// Builds the track summaries of a page of a playlist's item listing,
/// skipping entries without a track.
pub fn playlist_item_summaries(items: &Vec<RawPlaylistItem>) -> (r: Vec<TrackSummary>)
    ensures
        r.len() == entries_with_track(items@).len(),
        forall|i: int| 0 <= i < r.len() ==> track_summary_of(entries_with_track(items@)[i], #[trigger] r@[i]),
{
    let mut r: Vec<TrackSummary> = Vec::new();
    let mut i: usize = 0;
    while i < items.len()
        invariant
            i <= items.len(),
            r.len() == entries_with_track(items@.take(i as int)).len(),
            forall|k: int| 0 <= k < r.len() ==> track_summary_of(entries_with_track(items@.take(i as int))[k], #[trigger] r@[k]),
        decreases items.len() - i,
    {
        let ghost before = entries_with_track(items@.take(i as int));
        assert(items@.take(i + 1).drop_last() =~= items@.take(i as int));
        let entry = &items[i];
        let t = match &entry.item {
            Some(t) => Some(t),
            None => entry.track.as_ref(),
        };
        if let Some(t) = t {
            r.push(to_summary(t));
        }
        i = i + 1;
        assert forall|k: int| 0 <= k < r.len() implies track_summary_of(entries_with_track(items@.take(i as int))[k], #[trigger] r@[k]) by {
            if k < before.len() {
                assert(entries_with_track(items@.take(i as int))[k] == before[k]);
            }
        }
    }
    assert(items@.take(i as int) =~= items@);
    r
}

/// Builds the track summaries of a page of the saved-tracks listing.
pub fn saved_summaries(items: &Vec<RawSaved>) -> (r: Vec<TrackSummary>)
    ensures
        r.len() == items.len(),
        forall|i: int| 0 <= i < items.len() ==> track_summary_of(items@[i].track, #[trigger] r@[i]),
{
    let mut r: Vec<TrackSummary> = Vec::new();
    let mut i: usize = 0;
    while i < items.len()
        invariant
            i <= items.len(),
            r.len() == i,
            forall|k: int| 0 <= k < i ==> track_summary_of(items@[k].track, #[trigger] r@[k]),
        decreases items.len() - i,
    {
        r.push(to_summary(&items[i].track));
        i = i + 1;
    }
    r
}

/// The most results a catalog search returns.
pub const SEARCH_MAX: u32 = 50;

/// The number of results a catalog search asks for and keeps: the limit the
/// caller gave, at most `SEARCH_MAX`.
pub open spec fn search_limit(limit: u32) -> u32 {
    if limit < SEARCH_MAX { limit } else { SEARCH_MAX }
}

/// Builds the track summaries of a search result page: those of the first
/// items, up to `limit` of them and at most `SEARCH_MAX`, in order.
pub fn track_summaries(items: &Vec<RawTrack>, limit: u32) -> (r: Vec<TrackSummary>)
    ensures
        r.len() == if items.len() < search_limit(limit) { items.len() as int } else { search_limit(limit) as int },
        forall|i: int| 0 <= i < r.len() ==> track_summary_of(items@[i], #[trigger] r@[i]),
{
    let cap: usize = if limit < SEARCH_MAX { limit as usize } else { SEARCH_MAX as usize };
    let n: usize = if items.len() < cap { items.len() } else { cap };
    let mut r: Vec<TrackSummary> = Vec::new();
    let mut i: usize = 0;
    while i < n
        invariant
            i <= n <= items.len(),
            r.len() == i,
            forall|k: int| 0 <= k < i ==> track_summary_of(items@[k], #[trigger] r@[k]),
        decreases n - i,
    {
        r.push(to_summary(&items[i]));
        i = i + 1;
    }
    r
}

/// The device listing without the devices that have no id.
pub open spec fn devices_with_id(raw: Seq<RawDevice>) -> Seq<RawDevice>
    decreases raw.len(),
{
    if raw.len() == 0 {
        Seq::empty()
    } else {
        let rest = devices_with_id(raw.drop_last());
        if raw.last().id is Some { rest.push(raw.last()) } else { rest }
    }
}

/// Builds the device list, dropping devices without an id.
pub fn devices_from(raw: &Vec<RawDevice>) -> (r: Vec<Device>)
    ensures
        r.len() == devices_with_id(raw@).len(),
        forall|i: int| 0 <= i < r.len() ==> {
            let d = #[trigger] devices_with_id(raw@)[i];
            &&& r@[i].id@ == text_or_empty(d.id)
            &&& r@[i].name@ == d.name@
            &&& r@[i].is_active == d.is_active
        },
{
    let mut r: Vec<Device> = Vec::new();
    let mut i: usize = 0;
    while i < raw.len()
        invariant
            i <= raw.len(),
            r.len() == devices_with_id(raw@.take(i as int)).len(),
            forall|k: int| 0 <= k < r.len() ==> {
                let d = #[trigger] devices_with_id(raw@.take(i as int))[k];
                &&& r@[k].id@ == text_or_empty(d.id)
                &&& r@[k].name@ == d.name@
                &&& r@[k].is_active == d.is_active
            },
        decreases raw.len() - i,
    {
        let ghost before = devices_with_id(raw@.take(i as int));
        assert(raw@.take(i + 1).drop_last() =~= raw@.take(i as int));
        if let Some(id) = &raw[i].id {
            r.push(Device { id: id.clone(), name: raw[i].name.clone(), is_active: raw[i].is_active });
        }
        i = i + 1;
        assert forall|k: int| 0 <= k < r.len() implies {
            let d = #[trigger] devices_with_id(raw@.take(i as int))[k];
            &&& r@[k].id@ == text_or_empty(d.id)
            &&& r@[k].name@ == d.name@
            &&& r@[k].is_active == d.is_active
        } by {
            if k < before.len() {
                assert(devices_with_id(raw@.take(i as int))[k] == before[k]);
            }
        }
    }
    assert(raw@.take(i as int) =~= raw@);
    r
}

/// The profile built from the current user's profile object: the display
/// name falls back to the id, a missing follower count reads 0.
pub open spec fn user_profile_of(me: RawMe, p: UserProfile) -> bool {
    &&& p.display_name@ == match me.display_name {
        Some(n) => n@,
        None => me.id@,
    }
    &&& p.id@ == me.id@
    &&& text_of(p.email) == text_of(me.email)
    &&& text_of(p.country) == text_of(me.country)
    &&& text_of(p.product) == text_of(me.product)
    &&& p.followers == match me.followers {
        Some(f) => f.total,
        None => 0,
    }
    &&& text_of(p.avatar_url) == best_image_url(image_list(me.images))
}

/// Builds the user's profile from the profile object.
pub fn user_profile_from(me: &RawMe) -> (p: UserProfile)
    ensures
        user_profile_of(*me, p),
{
    let display_name = match &me.display_name {
        Some(n) => n.clone(),
        None => me.id.clone(),
    };
    let followers = match &me.followers {
        Some(f) => f.total,
        None => 0,
    };
    UserProfile {
        display_name,
        id: me.id.clone(),
        email: me.email.clone(),
        country: me.country.clone(),
        product: me.product.clone(),
        followers,
        avatar_url: best_image(&me.images),
    }
}

/// The playback state read from a player object; there is none when nothing
/// is loaded in the player.
pub open spec fn playback_of(p: RawPlayer, s: Option<PlaybackState>) -> bool {
    match p.item {
        None => s is None,
        Some(item) => s matches Some(st) && {
            &&& st.track_id@ == text_or_empty(item.id)
            &&& st.track_name@ == item.name@
            &&& st.artist@ == if item.artists.len() > 0 { item.artists@[0].name@ } else { Seq::empty() }
            &&& st.album@ == match item.album {
                Some(a) => a.name@,
                None => Seq::empty(),
            }
            &&& text_of(st.album_image_url) == match item.album {
                Some(a) => best_image_url(image_list(a.images)),
                None => None,
            }
            &&& st.duration_ms == item.duration_ms
            &&& st.progress_ms == match p.progress_ms {
                Some(ms) => ms,
                None => 0,
            }
            &&& st.is_playing == p.is_playing
            &&& text_of(st.device_id) == match p.device {
                Some(d) => text_of(d.id),
                None => None,
            }
        },
    }
}

/// Reads the playback state from a player object.
pub fn playback_from(p: &RawPlayer) -> (s: Option<PlaybackState>)
    ensures
        playback_of(*p, s),
{
    let item = match &p.item {
        Some(item) => item,
        None => return None,
    };
    let t = to_summary(item);
    let device_id = match &p.device {
        Some(d) => d.id.clone(),
        None => None,
    };
    Some(PlaybackState {
        track_id: t.id,
        track_name: t.name,
        artist: t.artist,
        album: t.album,
        album_image_url: t.album_image_url,
        duration_ms: item.duration_ms,
        progress_ms: match p.progress_ms {
            Some(ms) => ms,
            None => 0,
        },
        is_playing: p.is_playing,
        device_id,
    })
}

} // verus!

verus! {

// ── Paging, retries and status codes ───────────────────────────────────────

/// How many items a listing request asks for.
pub const PAGE: u32 = 50;

/// How often a rate-limited request is retried before giving up.
pub const MAX_RETRIES: u32 = 4;

/// The wait in seconds when a rate-limited answer names none.
pub const DEFAULT_RETRY_WAIT: u64 = 5;

/// After a page of `received` items at `offset`: the offset of the next page,
/// or nothing when the listing is complete (an empty page, or no `next`
/// link).
pub fn next_page_offset(offset: u32, received: usize, has_next: bool) -> (r: Option<u32>)
    requires
        offset + received <= u32::MAX,
    ensures
        r == if received == 0 || !has_next { None } else { Some((offset + received) as u32) },
{
    if received == 0 || !has_next {
        None
    } else {
        Some(offset + received as u32)
    }
}

/// What to do with the answer to a GET request.
#[derive(Clone, Copy, PartialEq, Eq, Debug, Structural)]
pub enum GetStep {
    /// Rate limited: sleep `sleep_secs` seconds and send again; `attempt`
    /// counts the rate-limited answers so far.
    Retry { attempt: u32, sleep_secs: u64 },
    /// Rate limited more often than `MAX_RETRIES` times: fail.
    GiveUp,
    /// Any other non-2xx status: fail with the status and body.
    Failed,
    /// Success: parse the body.
    Parse,
}

/// The value of a decimal text as `u64::from_str` reads it: an optional `+`,
/// then one or more ASCII digits, the value fitting in 64 bits.
pub open spec fn digits_value(s: Seq<char>) -> int
    decreases s.len(),
{
    if s.len() == 0 {
        0
    } else {
        digits_value(s.drop_last()) * 10 + (s.last() as int - 48)
    }
}

/// Whether every character of `s` is an ASCII digit.
pub open spec fn all_digits(s: Seq<char>) -> bool {
    forall|i: int| 0 <= i < s.len() ==> '0' <= #[trigger] s[i] <= '9'
}

/// The text after an optional leading `+`.
pub open spec fn unsigned_digits(s: Seq<char>) -> Seq<char> {
    if s.len() > 0 && s[0] == '+' {
        s.skip(1)
    } else {
        s
    }
}

/// The number `u64::from_str` reads from `s`, if it reads one.
pub open spec fn parsed_u64(s: Seq<char>) -> Option<u64> {
    let digits = unsigned_digits(s);
    if digits.len() > 0 && all_digits(digits) && digits_value(digits) <= u64::MAX {
        Some(digits_value(digits) as u64)
    } else {
        None
    }
}

proof fn lemma_digits_value_nonneg(s: Seq<char>)
    requires
        all_digits(s),
    ensures
        digits_value(s) >= 0,
    decreases s.len(),
{
    if s.len() > 0 {
        assert(all_digits(s.drop_last())) by {
            assert forall|i: int| 0 <= i < s.drop_last().len() implies '0' <= #[trigger] s.drop_last()[i] <= '9' by {
                assert(s.drop_last()[i] == s[i]);
            }
        }
        lemma_digits_value_nonneg(s.drop_last());
        assert('0' <= s[s.len() - 1] <= '9');
    }
}

/// Reads an unsigned decimal number the way `u64::from_str` does.
pub fn parse_u64(s: &str) -> (r: Option<u64>)
    ensures
        r == parsed_u64(s@),
{
    let n = s.unicode_len();
    let start: usize = if n > 0 && s.get_char(0) == '+' { 1 } else { 0 };
    let ghost digits = unsigned_digits(s@);
    assert(digits =~= s@.skip(start as int));
    if start >= n {
        assert(digits.len() == 0);
        return None;
    }
    let mut value: u64 = 0;
    let mut i: usize = start;
    while i < n
        invariant
            n == s@.len(),
            start <= i <= n,
            digits == s@.skip(start as int),
            digits == unsigned_digits(s@),
            all_digits(s@.subrange(start as int, i as int)),
            value as int == digits_value(s@.subrange(start as int, i as int)),
        decreases n - i,
    {
        let c = s.get_char(i);
        let ghost before = s@.subrange(start as int, i as int);
        let ghost after = s@.subrange(start as int, i + 1);
        assert(after.drop_last() =~= before);
        if c < '0' || c > '9' {
            assert(!all_digits(digits)) by {
                assert(digits[i - start] == c);
                assert(!('0' <= digits[i - start] <= '9'));
            }
            return None;
        }
        let d = (c as u32 - 48) as u64;
        assert(all_digits(after)) by {
            assert forall|k: int| 0 <= k < after.len() implies '0' <= #[trigger] after[k] <= '9' by {
                if k < before.len() {
                    assert(after[k] == before[k]);
                }
            }
        }
        if value > (u64::MAX - d) / 10 {
            proof {
                // The value only grows from here on.
                lemma_digits_value_nonneg(after);
                assert(digits_value(after) > u64::MAX) by (nonlinear_arith)
                    requires
                        digits_value(after) == value * 10 + d,
                        value > (u64::MAX - d) / 10,
                        0 <= d <= 9,
                ;
                if all_digits(digits) {
                    lemma_digits_value_prefix(digits, after.len() as int);
                    assert(digits.subrange(0, after.len() as int) =~= after);
                }
            }
            return None;
        }
        value = value * 10 + d;
        i = i + 1;
    }
    assert(s@.subrange(start as int, n as int) =~= digits);
    Some(value)
}

proof fn lemma_digits_value_prefix(s: Seq<char>, k: int)
    requires
        0 <= k <= s.len(),
        all_digits(s),
    ensures
        digits_value(s) >= digits_value(s.subrange(0, k)),
    decreases s.len() - k,
{
    if k < s.len() {
        lemma_digits_value_prefix(s, k + 1);
        let p = s.subrange(0, k + 1);
        assert(p.drop_last() =~= s.subrange(0, k));
        assert(all_digits(s.subrange(0, k))) by {
            assert forall|i: int| 0 <= i < s.subrange(0, k).len() implies '0' <= #[trigger] s.subrange(0, k)[i] <= '9' by {
                assert(s.subrange(0, k)[i] == s[i]);
            }
        }
        lemma_digits_value_nonneg(s.subrange(0, k));
        assert('0' <= s[k] <= '9');
        assert(digits_value(p) == digits_value(s.subrange(0, k)) * 10 + (s[k] as int - 48));
    } else {
        assert(s.subrange(0, k) =~= s);
    }
}

/// What to do with the answer to a GET request: `attempt` rate-limited
/// answers came before this one, `status` is its HTTP status and
/// `retry_after` its `Retry-After` header (when present and readable).
pub open spec fn get_step(attempt: u32, status: u16, retry_after: Option<Seq<char>>) -> GetStep {
    if status == 429 {
        if attempt + 1 > MAX_RETRIES {
            GetStep::GiveUp
        } else {
            let wait: u64 = match retry_after {
                Some(t) => match parsed_u64(t) {
                    Some(v) => v,
                    None => DEFAULT_RETRY_WAIT,
                },
                None => DEFAULT_RETRY_WAIT,
            };
            GetStep::Retry {
                attempt: (attempt + 1) as u32,
                sleep_secs: vstd::wrapping::u64_specs::wrapping_add(wait, 1),
            }
        }
    } else if !(200 <= status <= 299) {
        GetStep::Failed
    } else {
        GetStep::Parse
    }
}

/// Decides what to do with the answer to a GET request; a rate-limited
/// request is retried after the server's `Retry-After` (5 s when absent or
/// unreadable) plus one second, at most `MAX_RETRIES` times.
pub fn after_get_response(attempt: u32, status: u16, retry_after: Option<&str>) -> (r: GetStep)
    requires
        attempt < u32::MAX,
    ensures
        r == get_step(attempt, status, match retry_after {
            Some(t) => Some(t@),
            None => None,
        }),
{
    if status == 429 {
        let next = attempt + 1;
        if next > MAX_RETRIES {
            return GetStep::GiveUp;
        }
        let wait = match retry_after {
            Some(t) => match parse_u64(t) {
                Some(v) => v,
                None => DEFAULT_RETRY_WAIT,
            },
            None => DEFAULT_RETRY_WAIT,
        };
        GetStep::Retry { attempt: next, sleep_secs: wait.wrapping_add(1) }
    } else if !(200 <= status && status <= 299) {
        GetStep::Failed
    } else {
        GetStep::Parse
    }
}

/// How a playback command (PUT play/pause, POST next/previous) ended.
#[derive(Clone, Copy, PartialEq, Eq, Debug, Structural)]
pub enum CommandOutcome {
    /// 200 or 204.
    Done,
    /// 404: no active device; logged, not an error.
    NoActiveDevice,
    /// Any other status: an error.
    Failed,
}

/// Classifies the status of a playback command.
pub fn command_outcome(status: u16) -> (r: CommandOutcome)
    ensures
        r == if status == 200 || status == 204 {
            CommandOutcome::Done
        } else if status == 404 {
            CommandOutcome::NoActiveDevice
        } else {
            CommandOutcome::Failed
        },
{
    if status == 200 || status == 204 {
        CommandOutcome::Done
    } else if status == 404 {
        CommandOutcome::NoActiveDevice
    } else {
        CommandOutcome::Failed
    }
}

/// Whether adding to the queue succeeded: only 200 and 204 count.
pub fn queue_accepted(status: u16) -> (r: bool)
    ensures
        r == (status == 200 || status == 204),
{
    status == 200 || status == 204
}

/// Whether the answer to a player query carries a player object to read:
/// not for 204 (no active device), not for another non-2xx status, not for
/// an empty body.
pub fn player_body_readable(status: u16, body: &str) -> (r: bool)
    ensures
        r == (status != 204 && 200 <= status <= 299 && body@.len() > 0),
{
    if status == 204 {
        return false;
    }
    if !(200 <= status && status <= 299) {
        return false;
    }
    !body.is_empty()
}

/// Whether a failed playlist-items request is one the explorer shows as an
/// empty listing: its error text mentions 403 (someone else's playlist).
pub fn hides_listing_error(message: &str) -> (r: bool)
    ensures
        r == crate::text::contains_text(message@, "403"@),
{
    crate::text::text_contains(message, "403")
}

} // verus!

verus! {

// ── Requests ────────────────────────────────────────────────────────────────

/// The root of the Web API.
pub open spec fn api_base() -> Seq<char> {
    "https://api.spotify.com/v1"@
}

/// The URL of an API path.
pub fn api_url(path: &str) -> (u: String)
    ensures
        u@ == api_base() + path@,
{
    let mut u = String::from_str("https://api.spotify.com/v1");
    u.append(path);
    u
}

/// The URL of a page of the user's playlists.
pub fn playlists_page_url(offset: u32) -> (u: String)
    ensures
        u@ == api_base() + "/me/playlists?limit="@ + decimal(PAGE as nat) + "&offset="@ + decimal(
            offset as nat,
        ),
{
    let mut u = api_url("/me/playlists?limit=");
    push_decimal(&mut u, PAGE as u64);
    u.append("&offset=");
    push_decimal(&mut u, offset as u64);
    u
}

/// The URL of a page of a playlist's items.
pub fn playlist_items_url(id: &str, offset: u32) -> (u: String)
    ensures
        u@ == api_base() + "/playlists/"@ + id@ + "/items?limit="@ + decimal(PAGE as nat)
            + "&offset="@ + decimal(offset as nat),
{
    let mut u = api_url("/playlists/");
    u.append(id);
    u.append("/items?limit=");
    push_decimal(&mut u, PAGE as u64);
    u.append("&offset=");
    push_decimal(&mut u, offset as u64);
    u
}

/// The URL of a page of the user's saved tracks.
pub fn liked_page_url(offset: u32) -> (u: String)
    ensures
        u@ == api_base() + "/me/tracks?limit="@ + decimal(PAGE as nat) + "&offset="@ + decimal(
            offset as nat,
        ),
{
    let mut u = api_url("/me/tracks?limit=");
    push_decimal(&mut u, PAGE as u64);
    u.append("&offset=");
    push_decimal(&mut u, offset as u64);
    u
}

/// The URL that starts playback, on a given device or the active one.
pub fn play_url(device_id: Option<&str>) -> (u: String)
    ensures
        u@ == api_base() + "/me/player/play"@ + match device_id {
            Some(d) => "?device_id="@ + d@,
            None => Seq::empty(),
        },
{
    let mut u = api_url("/me/player/play");
    match device_id {
        Some(d) => {
            u.append("?device_id=");
            u.append(d);
        },
        None => {
            assert(u@ =~= u@ + Seq::<char>::empty());
        },
    }
    u
}

/// The URL that adds a track to the playback queue.
pub fn queue_url(track_id: &str) -> (u: String)
    ensures
        u@ == api_base() + "/me/player/queue?uri=spotify:track:"@ + track_id@,
{
    let mut u = api_url("/me/player/queue?uri=spotify:track:");
    u.append(track_id);
    u
}

/// The URL of the user's liked songs, where a track is saved (`PUT`) or
/// removed (`DELETE`).
pub fn saved_tracks_url() -> (u: String)
    ensures
        u@ == api_base() + "/me/tracks"@,
{
    api_url("/me/tracks")
}

/// The JSON body that names one track to save or remove; the API wants the
/// ids in the body, not in the query.
pub fn ids_body(track_id: &str) -> (b: String)
    ensures
        b@ == "{\"ids\":["@ + json_string(track_id@) + "]}"@,
{
    let mut b = String::from_str("{\"ids\":[");
    b.append(json_quote(track_id).as_str());
    b.append("]}");
    b
}

/// The URL to which tracks are added to a playlist (`POST`).
pub fn playlist_add_url(playlist_id: &str) -> (u: String)
    ensures
        u@ == api_base() + "/playlists/"@ + playlist_id@ + "/tracks"@,
{
    let mut u = api_url("/playlists/");
    u.append(playlist_id);
    u.append("/tracks");
    u
}

/// The JSON body that names one track, by URI, to add to a playlist.
pub fn uris_body(track_uri: &str) -> (b: String)
    ensures
        b@ == "{\"uris\":["@ + json_string(track_uri@) + "]}"@,
{
    let mut b = String::from_str("{\"uris\":[");
    b.append(json_quote(track_uri).as_str());
    b.append("]}");
    b
}

/// The URL of a catalog track search, or nothing for a blank query (which is
/// answered with no results without asking). It asks for `limit` results,
/// at most `SEARCH_MAX`.
pub fn search_url(query: &str, limit: u32) -> (u: Option<String>)
    ensures
        (forall|i: int| 0 <= i < query@.len() ==> is_white(#[trigger] query@[i])) ==> u is None,
        !(forall|i: int| 0 <= i < query@.len() ==> is_white(#[trigger] query@[i])) ==> (u matches Some(
            s) && s@ == api_base() + "/search?q="@ + percent_encoded(query.spec_bytes()) + "&type=track&limit="@
            + decimal(search_limit(limit) as nat)),
{
    if is_blank(query) {
        return None;
    }
    let mut u = api_url("/search?q=");
    let q = url_encode(query);
    u.append(q.as_str());
    u.append("&type=track&limit=");
    let n: u32 = if limit < SEARCH_MAX { limit } else { SEARCH_MAX };
    push_decimal(&mut u, n as u64);
    Some(u)
}

/// The Spotify URI of a track.
pub fn track_uri(id: &str) -> (u: String)
    ensures
        u@ == "spotify:track:"@ + id@,
{
    let mut u = String::from_str("spotify:track:");
    u.append(id);
    u
}

/// The Spotify URI of a playlist, the context in which its tracks play.
pub fn playlist_context_uri(id: &str) -> (u: String)
    ensures
        u@ == "spotify:playlist:"@ + id@,
{
    let mut u = String::from_str("spotify:playlist:");
    u.append(id);
    u
}

/// The JSON escape of one character inside a string literal: quote,
/// backslash and the control characters are escaped, every other character
/// stands for itself.
pub open spec fn json_escape(c: char) -> Seq<char> {
    let u = c as u32;
    if c == '"' {
        seq!['\\', '"']
    } else if c == '\\' {
        seq!['\\', '\\']
    } else if u == 0x08 {
        seq!['\\', 'b']
    } else if u == 0x09 {
        seq!['\\', 't']
    } else if u == 0x0a {
        seq!['\\', 'n']
    } else if u == 0x0c {
        seq!['\\', 'f']
    } else if u == 0x0d {
        seq!['\\', 'r']
    } else if u < 0x20 {
        seq!['\\', 'u', '0', '0', hex_lower(u as nat / 16), hex_lower(u as nat % 16)]
    } else {
        seq![c]
    }
}

/// The escaped characters of `s`.
pub open spec fn json_escaped(s: Seq<char>) -> Seq<char>
    decreases s.len(),
{
    if s.len() == 0 {
        Seq::empty()
    } else {
        json_escaped(s.drop_last()) + json_escape(s.last())
    }
}

/// `s` as a JSON string literal.
pub open spec fn json_string(s: Seq<char>) -> Seq<char> {
    seq!['"'] + json_escaped(s) + seq!['"']
}

/// Writes `s` as a JSON string literal (`serde_json::to_string` on a string
/// slice, which cannot fail): quotes around it, quote and backslash escaped
/// with a backslash, \b \t \n \f \r for those controls, `\u00xx` (lower-case
/// hex) for the other characters below U+0020, everything else unchanged.
#[verifier::external_body]
fn json_quote(s: &str) -> (r: String)
    ensures
        r@ == json_string(s@),
{
    serde_json::to_string(s).unwrap_or_default()
}

/// The body of a play request: with a context, the context and the track
/// to start at within it; without, the track alone.
pub open spec fn play_body_text(track_uri: Seq<char>, context_uri: Option<Seq<char>>) -> Seq<char> {
    match context_uri {
        Some(ctx) => "{\"context_uri\":"@ + json_string(ctx) + ",\"offset\":{\"uri\":"@ + json_string(
            track_uri,
        ) + "}}"@,
        None => "{\"uris\":["@ + json_string(track_uri) + "]}"@,
    }
}

/// Builds the JSON body of a play request.
pub fn play_body(track_uri: &str, context_uri: Option<&str>) -> (b: String)
    ensures
        b@ == play_body_text(track_uri@, match context_uri {
            Some(c) => Some(c@),
            None => None,
        }),
{
    match context_uri {
        Some(ctx) => {
            let mut b = String::from_str("{\"context_uri\":");
            b.append(json_quote(ctx).as_str());
            b.append(",\"offset\":{\"uri\":");
            b.append(json_quote(track_uri).as_str());
            b.append("}}");
            b
        },
        None => {
            let mut b = String::from_str("{\"uris\":[");
            b.append(json_quote(track_uri).as_str());
            b.append("]}");
            b
        },
    }
}

// ── Authorization ───────────────────────────────────────────────────────────

/// The scopes the client needs.
pub open spec fn required_scopes_spec() -> Seq<Seq<char>> {
    seq![
        "user-read-private"@,
        "user-read-email"@,
        "user-library-read"@,
        "user-library-modify"@,
        "playlist-read-private"@,
        "playlist-read-collaborative"@,
        "playlist-modify-public"@,
        "playlist-modify-private"@,
        "user-follow-read"@,
        "user-read-playback-state"@,
        "user-modify-playback-state"@,
        "user-read-currently-playing"@,
    ]
}

/// The scopes the client asks for and needs a cached token to hold.
pub fn required_scopes() -> (r: Vec<&'static str>)
    ensures
        r@.map_values(|s: &str| s@) == required_scopes_spec(),
{
    let r = vec![
        "user-read-private",
        "user-read-email",
        "user-library-read",
        "user-library-modify",
        "playlist-read-private",
        "playlist-read-collaborative",
        "playlist-modify-public",
        "playlist-modify-private",
        "user-follow-read",
        "user-read-playback-state",
        "user-modify-playback-state",
        "user-read-currently-playing",
    ];
    assert(r@.map_values(|s: &str| s@) =~= required_scopes_spec());
    r
}

/// Whether the granted scope texts hold every required scope as a
/// white-space separated word.
pub open spec fn scopes_cover(granted: Seq<String>, required: Seq<Seq<char>>) -> bool {
    forall|k: int|
        0 <= k < required.len() ==> exists|j: int|
            0 <= j < granted.len() && has_word(#[trigger] granted[j]@, #[trigger] required[k])
}

/// The next step of signing in with a cached token.
#[derive(Clone, Copy, PartialEq, Eq, Debug, Structural)]
pub enum TokenStep {
    /// Sign in through the browser.
    SignIn,
    /// Delete the cached token, which lacks a scope, then sign in.
    DiscardAndSignIn,
    /// Install the cached token and check it with a request for the user.
    Verify,
    /// The cached token works: use it.
    UseCached,
}

/// Decides the next sign-in step from what is known of the cached token: the
/// scopes it grants, if one was read, and whether the check request
/// succeeded, once it was made. Without a token the user signs in; a token
/// that lacks a required scope is discarded; one that has them all is
/// checked first and used when the check succeeds.
pub fn cached_token_step(granted: &Option<Vec<String>>, verified: Option<bool>) -> (s: TokenStep)
    ensures
        s == match granted {
            None => TokenStep::SignIn,
            Some(g) => if !scopes_cover(g@, required_scopes_spec()) {
                TokenStep::DiscardAndSignIn
            } else {
                match verified {
                    None => TokenStep::Verify,
                    Some(true) => TokenStep::UseCached,
                    Some(false) => TokenStep::SignIn,
                }
            },
        },
{
    match granted {
        None => TokenStep::SignIn,
        Some(g) => {
            if !has_required_scopes(g) {
                TokenStep::DiscardAndSignIn
            } else {
                match verified {
                    None => TokenStep::Verify,
                    Some(true) => TokenStep::UseCached,
                    Some(false) => TokenStep::SignIn,
                }
            }
        },
    }
}

/// Whether a cached token's scopes cover everything the client needs.
pub fn has_required_scopes(granted: &Vec<String>) -> (r: bool)
    ensures
        r == scopes_cover(granted@, required_scopes_spec()),
{
    let required = required_scopes();
    let mut k: usize = 0;
    while k < required.len()
        invariant
            k <= required.len(),
            required@.map_values(|s: &str| s@) == required_scopes_spec(),
            forall|q: int| 0 <= q < k ==> exists|j: int|
                0 <= j < granted.len() && has_word(#[trigger] granted@[j]@, #[trigger] required_scopes_spec()[q]),
        decreases required.len() - k,
    {
        let word = required[k];
        assert(required@.map_values(|s: &str| s@)[k as int] == word@);
        let mut j: usize = 0;
        let mut found = false;
        while j < granted.len() && !found
            invariant
                j <= granted.len(),
                found ==> j < granted.len() && has_word(granted@[j as int]@, word@),
                !found ==> forall|m: int| 0 <= m < j ==> !has_word(#[trigger] granted@[m]@, word@),
            decreases granted.len() - j + if found { 0int } else { 1int },
        {
            if contains_word(granted[j].as_str(), word) {
                found = true;
            } else {
                j = j + 1;
            }
        }
        if !found {
            assert(!scopes_cover(granted@, required_scopes_spec())) by {
                if scopes_cover(granted@, required_scopes_spec()) {
                    let w = required_scopes_spec()[k as int];
                    assert(w == word@);
                    assert(exists|jj: int| 0 <= jj < granted.len() && has_word(#[trigger] granted@[jj]@, w));
                    let jj = choose|jj: int| 0 <= jj < granted.len() && has_word(#[trigger] granted@[jj]@, w);
                    assert(!has_word(granted@[jj]@, word@));
                }
            }
            return false;
        }
        k = k + 1;
    }
    true
}

} // verus!
