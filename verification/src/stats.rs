//! Library statistics: counts, total listening time and the most frequent
//! artists and albums of the liked tracks.

use vstd::prelude::*;
use crate::model::{PlaylistSummary, TrackSummary, UserProfile, UserStats, texts};

verus! {

/// How many times `x` occurs in `s`.
pub open spec fn occurrences(s: Seq<Seq<char>>, x: Seq<char>) -> nat
    decreases s.len(),
{
    if s.len() == 0 {
        0
    } else {
        occurrences(s.drop_last(), x) + if s.last() == x { 1nat } else { 0nat }
    }
}

/// The distinct elements of `s`, in order of first occurrence.
pub open spec fn distinct(s: Seq<Seq<char>>) -> Seq<Seq<char>>
    decreases s.len(),
{
    if s.len() == 0 {
        Seq::empty()
    } else {
        let d = distinct(s.drop_last());
        if d.contains(s.last()) {
            d
        } else {
            d.push(s.last())
        }
    }
}

/// `top` holds `k` (or, when fewer exist, all) distinct values of `names`,
/// ordered by non-increasing number of occurrences, and no value left out
/// occurs more often than any value kept. Values that occur equally often may
/// be kept or left out in either order.
pub open spec fn is_top_ranking(top: Seq<Seq<char>>, names: Seq<Seq<char>>, k: nat) -> bool {
    &&& top.len() == if k < distinct(names).len() { k } else { distinct(names).len() }
    &&& top.no_duplicates()
    &&& forall|j: int| 0 <= j < top.len() ==> names.contains(#[trigger] top[j])
    &&& forall|j: int, l: int|
        0 <= j < l < top.len() ==> occurrences(names, #[trigger] top[j]) >= occurrences(
            names,
            #[trigger] top[l],
        )
    &&& forall|x: Seq<char>, j: int|
        #![trigger occurrences(names, x), top[j]]
        names.contains(x) && !top.contains(x) && 0 <= j < top.len() ==> occurrences(names, x)
            <= occurrences(names, top[j])
}

/// The artists of `liked`, one per track.
pub open spec fn artists_of(liked: Seq<TrackSummary>) -> Seq<Seq<char>> {
    liked.map_values(|t: TrackSummary| t.artist@)
}

/// The albums of `liked`, one per track.
pub open spec fn albums_of(liked: Seq<TrackSummary>) -> Seq<Seq<char>> {
    liked.map_values(|t: TrackSummary| t.album@)
}

/// The summed length of `tracks` in milliseconds.
pub open spec fn total_duration(tracks: Seq<TrackSummary>) -> nat
    decreases tracks.len(),
{
    if tracks.len() == 0 {
        0
    } else {
        total_duration(tracks.drop_last()) + tracks.last().duration_ms as nat
    }
}

/// How many of `playlists` the user owns.
pub open spec fn owned_count(playlists: Seq<PlaylistSummary>) -> nat
    decreases playlists.len(),
{
    if playlists.len() == 0 {
        0
    } else {
        owned_count(playlists.drop_last()) + if playlists.last().owner { 1nat } else { 0nat }
    }
}

/// How many artists the stats rank.
pub const TOP_ARTISTS: usize = 8;

/// How many albums the stats rank.
pub const TOP_ALBUMS: usize = 5;

proof fn lemma_occurrences_bound(s: Seq<Seq<char>>, x: Seq<char>)
    ensures
        occurrences(s, x) <= s.len(),
        occurrences(s, x) > 0 <==> s.contains(x),
    decreases s.len(),
{
    if s.len() > 0 {
        lemma_occurrences_bound(s.drop_last(), x);
        if s.drop_last().contains(x) {
            let i = choose|i: int| 0 <= i < s.drop_last().len() && s.drop_last()[i] == x;
            assert(s[i] == x);
        }
        if s.contains(x) && s.last() != x {
            let i = choose|i: int| 0 <= i < s.len() && s[i] == x;
            assert(s.drop_last()[i] == x);
        }
    }
}

proof fn lemma_push_contains(d: Seq<Seq<char>>, l: Seq<char>, x: Seq<char>)
    ensures
        d.push(l).contains(x) <==> (d.contains(x) || x == l),
{
    if d.push(l).contains(x) {
        let i = choose|i: int| 0 <= i < d.push(l).len() && d.push(l)[i] == x;
        if i < d.len() {
            assert(d[i] == x);
        }
    }
    if d.contains(x) {
        let i = choose|i: int| 0 <= i < d.len() && d[i] == x;
        assert(d.push(l)[i] == x);
    }
    if x == l {
        assert(d.push(l)[d.len() as int] == x);
    }
}

proof fn lemma_distinct(s: Seq<Seq<char>>)
    ensures
        distinct(s).no_duplicates(),
        forall|x: Seq<char>| distinct(s).contains(x) <==> s.contains(x),
        distinct(s).len() <= s.len(),
    decreases s.len(),
{
    if s.len() > 0 {
        let p = s.drop_last();
        let l = s.last();
        let d = distinct(p);
        lemma_distinct(p);
        assert(s =~= p.push(l));
        assert forall|x: Seq<char>| distinct(s).contains(x) <==> s.contains(x) by {
            lemma_push_contains(p, l, x);
            lemma_push_contains(d, l, x);
        }
        if !d.contains(l) {
            assert forall|i: int, j: int|
                0 <= i < d.push(l).len() && 0 <= j < d.push(l).len() && i != j implies d.push(l)[i]
                != d.push(l)[j] by {
                if i == d.len() as int {
                    assert(d[j] == d.push(l)[j]);
                } else if j == d.len() as int {
                    assert(d[i] == d.push(l)[i]);
                }
            }
        }
    }
}

/// Counts, for each distinct name in order of first occurrence, how often it
/// occurs.
fn tally(names: &Vec<String>) -> (r: (Vec<String>, Vec<u32>))
    requires
        names.len() <= u32::MAX,
    ensures
        texts(r.0@) == distinct(texts(names@)),
        r.1.len() == r.0.len(),
        forall|k: int|
            0 <= k < r.1.len() ==> r.1[k] as nat == occurrences(texts(names@), r.0[k]@),
{
    let ghost all = texts(names@);
    let mut keys: Vec<String> = Vec::new();
    let mut counts: Vec<u32> = Vec::new();
    let mut i: usize = 0;
    while i < names.len()
        invariant
            all == texts(names@),
            names.len() <= u32::MAX,
            i <= names.len(),
            texts(keys@) == distinct(all.take(i as int)),
            counts.len() == keys.len(),
            forall|k: int|
                0 <= k < counts.len() ==> counts[k] as nat == occurrences(
                    all.take(i as int),
                    keys[k]@,
                ),
        decreases names.len() - i,
    {
        let ghost before = all.take(i as int);
        let ghost after = all.take(i + 1);
        assert(after.drop_last() =~= before);
        assert(after.last() == names[i as int]@);
        proof {
            lemma_distinct(before);
        }
        let mut p: usize = 0;
        let mut found = false;
        while p < keys.len() && !found
            invariant
                p <= keys.len(),
                !found ==> forall|q: int| 0 <= q < p ==> keys[q]@ != names[i as int]@,
                found ==> p < keys.len() && keys[p as int]@ == names[i as int]@,
                i < names.len(),
            decreases keys.len() - p + if found { 0int } else { 1int },
        {
            if keys[p] == names[i] {
                found = true;
            } else {
                p = p + 1;
            }
        }
        if found {
            proof {
                lemma_occurrences_bound(before, keys[p as int]@);
                assert(texts(keys@)[p as int] == keys[p as int]@);
            }
            let c = counts[p];
            counts.set(p, c + 1);
            assert(distinct(after) == distinct(before)) by {
                assert(texts(keys@)[p as int] == after.last());
            }
        } else {
            assert(!distinct(before).contains(after.last())) by {
                if distinct(before).contains(after.last()) {
                    let q = choose|q: int|
                        0 <= q < distinct(before).len() && distinct(before)[q] == after.last();
                    assert(texts(keys@)[q] == keys[q]@);
                }
            }
            keys.push(names[i].clone());
            counts.push(1);
            proof {
                lemma_occurrences_bound(before, names[i as int]@);
                assert(texts(keys@) =~= distinct(after));
            }
        }
        i = i + 1;
        assert forall|k: int| 0 <= k < counts.len() implies counts[k] as nat == occurrences(
            all.take(i as int),
            keys[k]@,
        ) by {
            assert(all.take(i as int) == after);
            if k < texts(keys@).len() {
                assert(texts(keys@)[k] == keys[k]@);
            }
        }
    }
    assert(all.take(i as int) =~= all);
    (keys, counts)
}

/// Picks the `k` keys with the highest counts, highest first; among equal
/// counts the earlier key comes first.
fn rank(keys: &Vec<String>, counts: &Vec<u32>, k: usize) -> (top: Vec<String>)
    requires
        keys.len() == counts.len(),
        texts(keys@).no_duplicates(),
    ensures
        top.len() == if k < keys.len() { k } else { keys.len() },
        texts(top@).no_duplicates(),
        forall|j: int| 0 <= j < top.len() ==> texts(keys@).contains(#[trigger] top[j]@),
        forall|j: int, l: int, a: int, b: int|
            0 <= j < l < top.len() && 0 <= a < keys.len() && 0 <= b < keys.len() && keys[a]@
                == top[j]@ && keys[b]@ == top[l]@ ==> counts[a] >= counts[b],
        forall|q: int, j: int, a: int|
            0 <= q < keys.len() && !texts(top@).contains(keys[q]@) && 0 <= j < top.len() && 0
                <= a < keys.len() && keys[a]@ == top[j]@ ==> counts[q] <= counts[a],
{
    let n = keys.len();
    let limit = if k < n { k } else { n };
    let mut taken: Vec<bool> = Vec::new();
    let mut t: usize = 0;
    while t < n
        invariant
            t <= n,
            taken.len() == t,
            forall|q: int| 0 <= q < t ==> !taken[q],
        decreases n - t,
    {
        taken.push(false);
        t = t + 1;
    }
    let mut top: Vec<String> = Vec::new();
    let ghost mut chosen: Seq<int> = Seq::empty();
    let mut j: usize = 0;
    while j < limit
        invariant
            n == keys.len(),
            keys.len() == counts.len(),
            texts(keys@).no_duplicates(),
            limit <= n,
            j <= limit,
            taken.len() == n,
            top.len() == j,
            chosen.len() == j,
            forall|r: int| 0 <= r < j ==> 0 <= #[trigger] chosen[r] < n,
            forall|r: int| 0 <= r < j ==> top[r]@ == keys[#[trigger] chosen[r]]@,
            forall|q: int| 0 <= q < n ==> (taken[q] <==> chosen.contains(q)),
            chosen.no_duplicates(),
            forall|r: int, s: int|
                #![trigger chosen[r], chosen[s]]
                0 <= r < s < j ==> counts[chosen[r]] >= counts[chosen[s]],
            forall|q: int, r: int|
                #![trigger counts[q], chosen[r]]
                0 <= q < n && !taken[q] && 0 <= r < j ==> counts[q] <= counts[chosen[r]],
        decreases limit - j,
    {
        // Some key is still free: j < n keys are taken.
        assert(exists|q: int| 0 <= q < n && !taken[q]) by {
            if forall|q: int| 0 <= q < n ==> taken[q] {
                assert forall|q: int| 0 <= q < n implies chosen.contains(q) by {
                    assert(taken[q]);
                }
                let ghost full = Set::new(|q: int| 0 <= q < n);
                assert(full.subset_of(chosen.to_set()));
                vstd::set_lib::lemma_int_range(0, n as int);
                assert(full =~= vstd::set_lib::set_int_range(0, n as int));
                vstd::set_lib::lemma_len_subset(full, chosen.to_set());
                chosen.unique_seq_to_set();
            }
        }
        let mut best: usize = 0;
        let mut have = false;
        let mut q: usize = 0;
        while q < n
            invariant
                n == keys.len(),
                keys.len() == counts.len(),
                taken.len() == n,
                q <= n,
                have ==> best < n && !taken[best as int],
                have ==> forall|p: int| 0 <= p < q && !taken[p] ==> counts[p] <= counts[best as int],
                !have ==> forall|p: int| 0 <= p < q ==> taken[p],
            decreases n - q,
        {
            if !taken[q] {
                if !have || counts[q] > counts[best] {
                    best = q;
                    have = true;
                }
            }
            q = q + 1;
        }
        assert(have);
        let ghost old_taken = taken@;
        let ghost old_chosen = chosen;
        taken.set(best, true);
        top.push(keys[best].clone());
        proof {
            chosen = chosen.push(best as int);
            assert forall|p: int| 0 <= p < n implies (taken[p] <==> chosen.contains(p)) by {
                if p == best as int {
                    assert(chosen[j as int] == p);
                } else {
                    assert(old_taken[p] == taken[p]);
                    if old_chosen.contains(p) {
                        let r = choose|r: int| 0 <= r < old_chosen.len() && old_chosen[r] == p;
                        assert(chosen[r] == p);
                    }
                    if chosen.contains(p) {
                        let r = choose|r: int| 0 <= r < chosen.len() && chosen[r] == p;
                        assert(old_chosen[r] == p);
                    }
                }
            }
            assert(!old_chosen.contains(best as int));
            assert forall|a: int, b: int| 0 <= a < b < chosen.len() implies chosen[a] != chosen[b] by {
                if b == j as int {
                    assert(old_chosen.contains(chosen[a]));
                }
            }
            assert forall|r: int, s: int| #![trigger chosen[r], chosen[s]] 0 <= r < s < j + 1 implies counts[chosen[r]] >= counts[chosen[s]] by {
                if s == j as int {
                    assert(!old_taken[best as int]);
                }
            }
            assert forall|p: int, r: int| #![trigger counts[p], chosen[r]] 0 <= p < n && !taken[p] && 0 <= r < j + 1 implies counts[p] <= counts[chosen[r]] by {
                assert(old_taken[p] == taken[p]);
            }
        }
        j = j + 1;
    }
    proof {
        let tk = texts(keys@);
        let tt = texts(top@);
        assert forall|a: int, b: int| 0 <= a < b < tt.len() implies tt[a] != tt[b] by {
            assert(tt[a] == keys[chosen[a]]@);
            assert(tt[b] == keys[chosen[b]]@);
            assert(tk[chosen[a]] == keys[chosen[a]]@);
            assert(tk[chosen[b]] == keys[chosen[b]]@);
        }
        assert forall|r: int| 0 <= r < top.len() implies tk.contains(#[trigger] top[r]@) by {
            assert(tk[chosen[r]] == keys[chosen[r]]@);
        }
        assert forall|r: int, s: int, a: int, b: int|
            0 <= r < s < top.len() && 0 <= a < keys.len() && 0 <= b < keys.len() && keys[a]@
                == top[r]@ && keys[b]@ == top[s]@ implies counts[a] >= counts[b] by {
            assert(tk[a] == tk[chosen[r]]);
            assert(tk[b] == tk[chosen[s]]);
        }
        assert forall|p: int, r: int, a: int|
            0 <= p < keys.len() && !tt.contains(keys[p]@) && 0 <= r < top.len() && 0 <= a
                < keys.len() && keys[a]@ == top[r]@ implies counts[p] <= counts[a] by {
            assert(tk[a] == keys[a]@);
            assert(tk[chosen[r]] == keys[chosen[r]]@);
            assert(a == chosen[r]);
            if taken[p] {
                assert(chosen.contains(p));
                let r2 = choose|r2: int| 0 <= r2 < chosen.len() && chosen[r2] == p;
                assert(tt[r2] == keys[p]@);
            }
            assert(counts[p] <= counts[chosen[r]]);
        }
    }
    top
}

/// Tallies `names` and ranks its `k` most frequent values.
fn top_names(names: &Vec<String>, k: usize) -> (r: (Vec<String>, usize))
    requires
        names.len() <= u32::MAX,
    ensures
        is_top_ranking(texts(r.0@), texts(names@), k as nat),
        r.1 == distinct(texts(names@)).len(),
{
    let (keys, counts) = tally(names);
    let ghost all = texts(names@);
    proof {
        lemma_distinct(all);
    }
    let top = rank(&keys, &counts, k);
    proof {
        let tk = texts(keys@);
        let tt = texts(top@);
        assert forall|j: int| 0 <= j < tt.len() implies all.contains(#[trigger] tt[j]) by {
            assert(tt[j] == top[j]@);
        }
        assert forall|j: int, l: int|
            0 <= j < l < tt.len() implies occurrences(all, #[trigger] tt[j]) >= occurrences(
            all,
            #[trigger] tt[l],
        ) by {
            assert(tt[j] == top[j]@);
            assert(tt[l] == top[l]@);
            let a = choose|a: int| 0 <= a < tk.len() && tk[a] == top[j]@;
            let b = choose|b: int| 0 <= b < tk.len() && tk[b] == top[l]@;
            assert(tk[a] == keys[a]@);
            assert(tk[b] == keys[b]@);
        }
        assert forall|x: Seq<char>, j: int|
            #![trigger occurrences(all, x), tt[j]]
            all.contains(x) && !tt.contains(x) && 0 <= j < tt.len() implies occurrences(all, x)
            <= occurrences(all, tt[j]) by {
            assert(tk.contains(x));
            let q = choose|q: int| 0 <= q < tk.len() && tk[q] == x;
            assert(tk[q] == keys[q]@);
            assert(tt[j] == top[j]@);
            let a = choose|a: int| 0 <= a < tk.len() && tk[a] == top[j]@;
            assert(tk[a] == keys[a]@);
            assert(counts[q] <= counts[a]);
        }
    }
    (top, keys.len())
}

fn artist_names(liked: &Vec<TrackSummary>) -> (r: Vec<String>)
    ensures
        r.len() == liked.len(),
        texts(r@) == artists_of(liked@),
{
    let mut r: Vec<String> = Vec::new();
    let mut i: usize = 0;
    while i < liked.len()
        invariant
            i <= liked.len(),
            r.len() == i,
            forall|k: int| 0 <= k < i ==> r[k]@ == #[trigger] liked[k].artist@,
        decreases liked.len() - i,
    {
        r.push(liked[i].artist.clone());
        i = i + 1;
    }
    assert(texts(r@) =~= artists_of(liked@));
    r
}

fn album_names(liked: &Vec<TrackSummary>) -> (r: Vec<String>)
    ensures
        r.len() == liked.len(),
        texts(r@) == albums_of(liked@),
{
    let mut r: Vec<String> = Vec::new();
    let mut i: usize = 0;
    while i < liked.len()
        invariant
            i <= liked.len(),
            r.len() == i,
            forall|k: int| 0 <= k < i ==> r[k]@ == #[trigger] liked[k].album@,
        decreases liked.len() - i,
    {
        r.push(liked[i].album.clone());
        i = i + 1;
    }
    assert(texts(r@) =~= albums_of(liked@));
    r
}

proof fn lemma_total_duration_bound(tracks: Seq<TrackSummary>)
    ensures
        total_duration(tracks) <= tracks.len() * (u32::MAX as nat),
    decreases tracks.len(),
{
    if tracks.len() > 0 {
        lemma_total_duration_bound(tracks.drop_last());
        assert((tracks.len() - 1) * (u32::MAX as nat) + u32::MAX as nat == tracks.len() * (u32::MAX as nat)) by (nonlinear_arith);
    }
}

/// Computes the library statistics from the loaded playlists and liked tracks.
/// The profile is not consulted.
pub fn compute_stats(
    _profile: &UserProfile,
    playlists: &Vec<PlaylistSummary>,
    liked: &Vec<TrackSummary>,
) -> (s: UserStats)
    requires
        liked.len() <= u32::MAX,
    ensures
        s.total_liked == liked.len() as u32,
        s.total_playlists == playlists.len() as u32,
        s.owned_playlists == owned_count(playlists@) as u32,
        s.unique_artists == distinct(artists_of(liked@)).len() as u32,
        s.unique_albums == distinct(albums_of(liked@)).len() as u32,
        s.total_duration_ms == total_duration(liked@),
        is_top_ranking(texts(s.top_artists@), artists_of(liked@), TOP_ARTISTS as nat),
        is_top_ranking(texts(s.top_albums@), albums_of(liked@), TOP_ALBUMS as nat),
{
    let mut total_ms: u64 = 0;
    let mut i: usize = 0;
    while i < liked.len()
        invariant
            i <= liked.len() <= u32::MAX,
            total_ms == total_duration(liked@.take(i as int)),
        decreases liked.len() - i,
    {
        proof {
            assert(liked@.take(i + 1).drop_last() =~= liked@.take(i as int));
            lemma_total_duration_bound(liked@.take(i + 1));
            assert((i + 1) * (u32::MAX as nat) <= (u32::MAX as nat + 1) * (u32::MAX as nat)) by (nonlinear_arith)
                requires i + 1 <= u32::MAX + 1;
        }
        total_ms = total_ms + liked[i].duration_ms as u64;
        i = i + 1;
    }
    assert(liked@.take(i as int) =~= liked@);
    let mut owned: usize = 0;
    let mut p: usize = 0;
    while p < playlists.len()
        invariant
            p <= playlists.len(),
            owned == owned_count(playlists@.take(p as int)),
            owned <= p,
        decreases playlists.len() - p,
    {
        assert(playlists@.take(p + 1).drop_last() =~= playlists@.take(p as int));
        if playlists[p].owner {
            owned = owned + 1;
        }
        p = p + 1;
    }
    assert(playlists@.take(p as int) =~= playlists@);
    let artists = artist_names(liked);
    let albums = album_names(liked);
    let (top_artists, n_artists) = top_names(&artists, TOP_ARTISTS);
    let (top_albums, n_albums) = top_names(&albums, TOP_ALBUMS);
    UserStats {
        total_liked: liked.len() as u32,
        total_playlists: playlists.len() as u32,
        owned_playlists: owned as u32,
        unique_artists: n_artists as u32,
        unique_albums: n_albums as u32,
        total_duration_ms: total_ms,
        top_artists,
        top_albums,
    }
}

} // verus!

verus! {

/// `s` holds the statistics of `playlists` and `liked` (see `compute_stats`).
pub open spec fn stats_for(s: crate::state::StatsView, playlists: Seq<PlaylistSummary>, liked: Seq<TrackSummary>) -> bool {
    &&& s.total_liked == liked.len() as u32
    &&& s.total_playlists == playlists.len() as u32
    &&& s.owned_playlists == owned_count(playlists) as u32
    &&& s.unique_artists == distinct(artists_of(liked)).len() as u32
    &&& s.unique_albums == distinct(albums_of(liked)).len() as u32
    &&& s.total_duration_ms == total_duration(liked)
    &&& is_top_ranking(texts(s.top_artists), artists_of(liked), TOP_ARTISTS as nat)
    &&& is_top_ranking(texts(s.top_albums), albums_of(liked), TOP_ALBUMS as nat)
}

} // verus!
