//! The application: its state, how it starts, and how it takes events.

use vstd::prelude::*;
use crate::cover::ImageProtocol;
use crate::reducer::{AppEvent, Effect, event_fits, recomputes_stats, reduce, reduced};
use crate::state::{AppState, AppView, fresh_state};
use crate::stats::stats_for;

verus! {

/// The client: everything it shows and remembers.
pub struct App {
    pub state: AppState,
}

impl App {
    /// A client that has just started, drawing covers with the given
    /// protocol.
    pub fn new(image_protocol: ImageProtocol) -> (a: App)
        ensures
            a.state@.wf(),
            fresh_state(a.state, image_protocol),
    {
        App { state: AppState::initial(image_protocol) }
    }

    /// Applies an event that arrived at time `now_ms`, and says what the
    /// event loop must do next.
    pub fn handle_event(&mut self, event: AppEvent, now_ms: u64) -> (effect: Effect)
        requires
            old(self).state@.wf(),
            event_fits(old(self).state@, event),
        ensures
            final(self).state@.wf(),
            final(self).state@ == (AppView {
                cached_stats: final(self).state@.cached_stats,
                ..reduced(old(self).state@, event, now_ms)
            }),
            recomputes_stats(event) ==> stats_for(
                final(self).state@.cached_stats,
                final(self).state@.playlists,
                final(self).state@.liked_tracks,
            ),
            !recomputes_stats(event) ==> final(self).state@.cached_stats == old(self).state@.cached_stats,
            effect == if event is ProfileLogout { Effect::DeleteTokenCache } else { Effect::Nothing },
    {
        reduce(&mut self.state, event, now_ms)
    }
}

} // verus!
