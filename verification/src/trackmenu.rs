//! The track action menu: the actions offered for the selected track,
//! narrowed by a typed filter; "Add to playlist" expands into a sub-list of
//! the user's own playlists, narrowed by the same filter.

use vstd::prelude::*;
use crate::model::{PlaylistSummary, TrackSummary};
use crate::text::{contains_text, lowercase_of, text_contains, to_lowercase};

verus! {

/// An action offered for a track.
#[derive(Clone, Copy, PartialEq, Eq, Debug, Structural)]
pub enum TrackAction {
    Like,
    AddToQueue,
    AddToPlaylist,
    PlayNow,
    Cancel,
    /// Add the track to the playlist at this index of the playlist list.
    ToPlaylist(usize),
}

/// The label an action is listed under (a playlist entry shows its
/// playlist's name after the icon).
pub open spec fn action_label(a: TrackAction) -> Seq<char> {
    match a {
        TrackAction::Like => "♥  Like / Unlike"@,
        TrackAction::AddToQueue => "+  Add to queue"@,
        TrackAction::AddToPlaylist => "↗  Add to playlist"@,
        TrackAction::PlayNow => "▶  Play now"@,
        TrackAction::Cancel => "✕  Cancel"@,
        TrackAction::ToPlaylist(_) => "↗  "@,
    }
}

/// Whether the filter `query` keeps a playlist entry: an empty query keeps
/// it, otherwise the lower-cased name must contain the lower-cased query.
pub open spec fn name_kept(name: Seq<char>, query: Seq<char>) -> bool {
    query.len() == 0 || contains_text(lowercase_of(name), lowercase_of(query))
}

/// The playlist entries the sub-list shows for the filter `query`: one for
/// each playlist the user owns whose name the filter keeps, in list order.
pub open spec fn playlist_choices(pls: Seq<PlaylistSummary>, query: Seq<char>) -> Seq<TrackAction>
    decreases pls.len(),
{
    if pls.len() == 0 {
        Seq::empty()
    } else {
        let rest = playlist_choices(pls.drop_last(), query);
        let p = pls.last();
        if p.owner && name_kept(p.name@, query) {
            rest.push(TrackAction::ToPlaylist((pls.len() - 1) as usize))
        } else {
            rest
        }
    }
}

/// The sub-list never holds more entries than there are playlists, and
/// each entry is an owned playlist of the list.
pub proof fn lemma_playlist_choices(pls: Seq<PlaylistSummary>, query: Seq<char>)
    requires
        pls.len() <= usize::MAX,
    ensures
        playlist_choices(pls, query).len() <= pls.len(),
        forall|k: int| 0 <= k < playlist_choices(pls, query).len() ==> {
            let a = #[trigger] playlist_choices(pls, query)[k];
            a matches TrackAction::ToPlaylist(i) && i < pls.len() && pls[i as int].owner
        },
    decreases pls.len(),
{
    if pls.len() > 0 {
        lemma_playlist_choices(pls.drop_last(), query);
        let rest = playlist_choices(pls.drop_last(), query);
        let out = playlist_choices(pls, query);
        assert forall|k: int| 0 <= k < out.len() implies {
            let a = #[trigger] out[k];
            a matches TrackAction::ToPlaylist(i) && i < pls.len() && pls[i as int].owner
        } by {
            if k < rest.len() {
                assert(out[k] == rest[k]);
                if let TrackAction::ToPlaylist(i) = rest[k] {
                    assert(pls[i as int] == pls.drop_last()[i as int]);
                }
            } else {
                assert(out[k] == TrackAction::ToPlaylist((pls.len() - 1) as usize));
                assert(pls[pls.len() - 1] == pls.last());
            }
        }
    }
}

/// Every action, in menu order.
pub open spec fn all_actions() -> Seq<TrackAction> {
    seq![
        TrackAction::Like,
        TrackAction::AddToQueue,
        TrackAction::AddToPlaylist,
        TrackAction::PlayNow,
        TrackAction::Cancel,
    ]
}

/// Whether the filter `query` keeps `a`: an empty query keeps every action,
/// otherwise the lower-cased label must contain the lower-cased query.
pub open spec fn action_kept(a: TrackAction, query: Seq<char>) -> bool {
    query.len() == 0 || contains_text(lowercase_of(action_label(a)), lowercase_of(query))
}

/// The actions the filter `query` keeps, in menu order.
pub open spec fn kept_actions(query: Seq<char>) -> Seq<TrackAction> {
    all_actions().filter(|a: TrackAction| action_kept(a, query))
}

/// With an empty filter every action is kept; never more than all five.
pub proof fn lemma_kept_actions_len(query: Seq<char>)
    ensures
        kept_actions(query).len() <= 5,
        query.len() == 0 ==> kept_actions(query) == all_actions(),
{
    let f = |a: TrackAction| action_kept(a, query);
    all_actions().lemma_filter_len(f);
    if query.len() == 0 {
        assert(all_actions().filter(f) =~= all_actions()) by {
            reveal_with_fuel(Seq::filter, 6);
        }
    }
}

impl TrackAction {
    /// The label the action is listed under.
    pub fn label(&self) -> (l: String)
        ensures
            l@ == action_label(*self),
    {
        match self {
            TrackAction::Like => String::from_str("♥  Like / Unlike"),
            TrackAction::AddToQueue => String::from_str("+  Add to queue"),
            TrackAction::AddToPlaylist => String::from_str("↗  Add to playlist"),
            TrackAction::PlayNow => String::from_str("▶  Play now"),
            TrackAction::Cancel => String::from_str("✕  Cancel"),
            TrackAction::ToPlaylist(_) => String::from_str("↗  "),
        }
    }

    /// The label split into its icon, the first three characters, and the
    /// rest, which the menu colour separately.
    pub fn label_parts(&self) -> (parts: (String, String))
        ensures
            parts.0@ == action_label(*self).take(if action_label(*self).len() < 3 { action_label(*self).len() as int } else { 3 }),
            parts.1@ == action_label(*self).skip(if action_label(*self).len() < 3 { action_label(*self).len() as int } else { 3 }),
    {
        let label = self.label();
        let n = label.as_str().unicode_len();
        let k = if n < 3 { n } else { 3 };
        let icon = label.as_str().substring_char(0, k).to_owned();
        let rest = label.as_str().substring_char(k, n).to_owned();
        assert(icon@ =~= action_label(*self).take(k as int));
        assert(rest@ =~= action_label(*self).skip(k as int));
        (icon, rest)
    }
}

/// The menu's state: the track it is open for, the typed filter, the actions
/// the filter keeps and the highlighted one.
#[derive(Clone, Debug)]
pub struct TrackMenuState {
    pub track: Option<TrackSummary>,
    pub query: String,
    pub actions: Vec<TrackAction>,
    pub selected: usize,
    /// Whether the menu shows the playlist sub-list.
    pub picking_playlist: bool,
}

impl Default for TrackMenuState {
    fn default() -> (s: Self)
        ensures
            s.track is None,
            s.query@.len() == 0,
            s.actions@.len() == 0,
            s.selected == 0,
            !s.picking_playlist,
    {
        TrackMenuState { track: None, query: String::new(), actions: Vec::new(), selected: 0, picking_playlist: false }
    }
}

impl TrackMenuState {
    /// Opens the menu for `track` with an empty filter, every action listed
    /// and the first one highlighted.
    pub fn open(track: TrackSummary) -> (s: Self)
        ensures
            s.track == Some(track),
            s.query@.len() == 0,
            s.actions@ == all_actions(),
            s.selected == 0,
            !s.picking_playlist,
    {
        let mut s = TrackMenuState {
            track: Some(track),
            query: String::new(),
            actions: Vec::new(),
            selected: 0,
            picking_playlist: false,
        };
        s.rebuild_actions();
        proof {
            lemma_kept_actions_len(s.query@);
        }
        s
    }

    /// Recomputes the listed actions from the filter and keeps the highlight
    /// on the last listed action at most.
    pub fn rebuild_actions(&mut self)
        ensures
            final(self).actions@ == kept_actions(old(self).query@),
            final(self).selected == if old(self).selected < final(self).actions@.len() {
                old(self).selected as int
            } else if final(self).actions@.len() == 0 {
                0
            } else {
                final(self).actions@.len() - 1
            },
            final(self).track == old(self).track,
            final(self).query == old(self).query,
            final(self).picking_playlist == old(self).picking_playlist,
    {
        let mut actions: Vec<TrackAction> = Vec::new();
        let all = [
            TrackAction::Like,
            TrackAction::AddToQueue,
            TrackAction::AddToPlaylist,
            TrackAction::PlayNow,
            TrackAction::Cancel,
        ];
        assert(all@ == all_actions());
        let empty = self.query.as_str().is_empty();
        let q = to_lowercase(self.query.as_str());
        let mut i: usize = 0;
        while i < 5
            invariant
                i <= 5,
                all@ == all_actions(),
                empty == (self.query@.len() == 0),
                q@ == lowercase_of(self.query@),
                actions@ == all_actions().take(i as int).filter(|a: TrackAction| action_kept(a, self.query@)),
            decreases 5 - i,
        {
            let a = all[i];
            let keep = if empty {
                true
            } else {
                let label = to_lowercase(a.label().as_str());
                text_contains(label.as_str(), q.as_str())
            };
            proof {
                let t = all_actions().take(i + 1);
                assert(t.drop_last() =~= all_actions().take(i as int));
                assert(t.last() == a);
                reveal(Seq::filter);
            }
            if keep {
                actions.push(a);
            }
            i = i + 1;
        }
        assert(all_actions().take(5) =~= all_actions());
        let last = if actions.len() == 0 { 0 } else { actions.len() - 1 };
        self.actions = actions;
        if self.selected > last {
            self.selected = last;
        }
    }

    /// Recomputes the playlist sub-list from the filter and keeps the
    /// highlight on the last listed entry at most.
    pub fn rebuild_playlist_choices(&mut self, playlists: &Vec<PlaylistSummary>)
        ensures
            final(self).actions@ == playlist_choices(playlists@, old(self).query@),
            final(self).selected == if old(self).selected < final(self).actions@.len() {
                old(self).selected as int
            } else if final(self).actions@.len() == 0 {
                0
            } else {
                final(self).actions@.len() - 1
            },
            final(self).track == old(self).track,
            final(self).query == old(self).query,
            final(self).picking_playlist == old(self).picking_playlist,
    {
        let empty = self.query.as_str().is_empty();
        let q = to_lowercase(self.query.as_str());
        let mut actions: Vec<TrackAction> = Vec::new();
        let mut i: usize = 0;
        while i < playlists.len()
            invariant
                i <= playlists.len(),
                empty == (self.query@.len() == 0),
                q@ == lowercase_of(self.query@),
                actions@ == playlist_choices(playlists@.take(i as int), self.query@),
            decreases playlists.len() - i,
        {
            let p = &playlists[i];
            let keep = p.owner && (empty || {
                let name = to_lowercase(p.name.as_str());
                text_contains(name.as_str(), q.as_str())
            });
            proof {
                let t = playlists@.take(i + 1);
                assert(t.drop_last() =~= playlists@.take(i as int));
                assert(t.last() == *p);
            }
            if keep {
                actions.push(TrackAction::ToPlaylist(i));
            }
            i = i + 1;
        }
        assert(playlists@.take(i as int) =~= playlists@);
        let last = if actions.len() == 0 { 0 } else { actions.len() - 1 };
        self.actions = actions;
        if self.selected > last {
            self.selected = last;
        }
    }

    /// The highlighted action, if the highlight is on a listed one.
    pub fn selected_action(&self) -> (a: Option<&TrackAction>)
        ensures
            a == if self.selected < self.actions@.len() {
                Some(&self.actions@[self.selected as int])
            } else {
                None
            },
    {
        if self.selected < self.actions.len() {
            Some(&self.actions[self.selected])
        } else {
            None
        }
    }
}

} // verus!
