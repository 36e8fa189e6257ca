//! Replay detection: per peer, the most recent nonces seen, up to a bound.

use vstd::prelude::*;
use std::collections::VecDeque;

verus! {

/// The views of a sequence of strings.
pub open spec fn string_views(strings: Seq<String>) -> Seq<Seq<char>> {
    strings.map_values(|s: String| s@)
}

/// The window after recording `nonce`: the nonce is appended and, while more
/// than `max_seen` are held, the oldest is dropped.
pub open spec fn slide(window: Seq<Seq<char>>, nonce: Seq<char>, max_seen: nat) -> Seq<
    Seq<char>,
> {
    let grown = window.push(nonce);
    if grown.len() <= max_seen {
        grown
    } else {
        grown.subrange(grown.len() - max_seen, grown.len() as int)
    }
}

/// What a replay window remembers: its bound, and for every peer the nonces
/// seen from it, oldest first (empty for a peer never seen).
pub struct ReplayModel {
    pub max_seen: nat,
    pub windows: Map<Seq<char>, Seq<Seq<char>>>,
}

/// One call of `seen_before`: a nonce already in the peer's window is reported
/// and nothing changes; any other nonce is recorded in that peer's window.
pub open spec fn replay_step(model: ReplayModel, peer_id: Seq<char>, nonce: Seq<char>) -> (
    ReplayModel,
    bool,
) {
    if model.windows[peer_id].contains(nonce) {
        (model, true)
    } else {
        (
            ReplayModel {
                max_seen: model.max_seen,
                windows: model.windows.insert(
                    peer_id,
                    slide(model.windows[peer_id], nonce, model.max_seen),
                ),
            },
            false,
        )
    }
}

/// Every peer has a window, no window holds more than `max_seen` nonces, and
/// none holds a nonce twice.
pub open spec fn windows_bounded(model: ReplayModel) -> bool {
    &&& forall|p: Seq<char>| #[trigger] model.windows.contains_key(p)
    &&& forall|p: Seq<char>| #[trigger] model.windows[p].len() <= model.max_seen
    &&& forall|p: Seq<char>| #[trigger] model.windows[p].no_duplicates()
}

/// A nonce just recorded for a peer is reported when the same peer sends it
/// again next (given room for at least one nonce).
pub proof fn lemma_repeat_is_reported(model: ReplayModel, peer_id: Seq<char>, nonce: Seq<char>)
    requires
        model.max_seen >= 1,
    ensures
        replay_step(replay_step(model, peer_id, nonce).0, peer_id, nonce).1,
{
    let after = replay_step(model, peer_id, nonce).0;
    if !model.windows[peer_id].contains(nonce) {
        let window = after.windows[peer_id];
        assert(window[window.len() - 1] == nonce);
    }
}

/// Recording a nonce for one peer leaves every other peer's window as it was.
pub proof fn lemma_other_peers_untouched(
    model: ReplayModel,
    peer_id: Seq<char>,
    other: Seq<char>,
    nonce: Seq<char>,
)
    requires
        other != peer_id,
    ensures
        replay_step(model, peer_id, nonce).0.windows[other] == model.windows[other],
        replay_step(model, peer_id, nonce).0.max_seen == model.max_seen,
{
}

/// A reported nonce changes nothing.
pub proof fn lemma_report_changes_nothing(model: ReplayModel, peer_id: Seq<char>, nonce: Seq<char>)
    requires
        replay_step(model, peer_id, nonce).1,
    ensures
        replay_step(model, peer_id, nonce).0 == model,
{
}

/// Windows stay bounded by `max_seen` and free of repeats.
pub proof fn lemma_step_keeps_bounds(model: ReplayModel, peer_id: Seq<char>, nonce: Seq<char>)
    requires
        windows_bounded(model),
    ensures
        windows_bounded(replay_step(model, peer_id, nonce).0),
{
    let after = replay_step(model, peer_id, nonce).0;
    if !model.windows[peer_id].contains(nonce) {
        let grown = model.windows[peer_id].push(nonce);
        assert(model.windows[peer_id].no_duplicates());
        assert(grown.no_duplicates()) by {
            assert forall|i: int, j: int| 0 <= i < grown.len() && 0 <= j < grown.len() && i != j
                implies grown[i] != grown[j] by {
                if i < grown.len() - 1 && j < grown.len() - 1 {
                    assert(model.windows[peer_id][i] != model.windows[peer_id][j]);
                } else if i == grown.len() - 1 {
                    assert(model.windows[peer_id][j] != nonce);
                } else {
                    assert(model.windows[peer_id][i] != nonce);
                }
            }
        }
        assert forall|p: Seq<char>| #[trigger] after.windows[p].no_duplicates() by {
            if p == peer_id {
                let w = after.windows[p];
                assert forall|i: int, j: int| 0 <= i < w.len() && 0 <= j < w.len() && i != j
                    implies w[i] != w[j] by {
                    if grown.len() > model.max_seen {
                        let off = grown.len() - model.max_seen;
                        assert(w[i] == grown[i + off] && w[j] == grown[j + off]);
                    }
                }
            }
        }
        assert forall|p: Seq<char>| #[trigger] after.windows.contains_key(p) by {
            assert(model.windows.contains_key(p));
        }
    }
}

/// When a peer's window is full, recording a new nonce forgets exactly the
/// oldest one: the window becomes the rest followed by the new nonce.
pub proof fn lemma_oldest_forgotten_when_full(
    model: ReplayModel,
    peer_id: Seq<char>,
    nonce: Seq<char>,
)
    requires
        windows_bounded(model),
        model.max_seen >= 1,
        model.windows[peer_id].len() == model.max_seen,
        !model.windows[peer_id].contains(nonce),
    ensures
        replay_step(model, peer_id, nonce).0.windows[peer_id] == model.windows[peer_id].drop_first().push(
            nonce,
        ),
        !replay_step(model, peer_id, nonce).0.windows[peer_id].contains(model.windows[peer_id][0]),
{
    let w = model.windows[peer_id];
    let after = replay_step(model, peer_id, nonce).0.windows[peer_id];
    assert(after =~= w.drop_first().push(nonce));
    assert(w.no_duplicates());
    if after.contains(w[0]) {
        let k = choose|k: int| 0 <= k < after.len() && after[k] == w[0];
        if k < after.len() - 1 {
            assert(w[k + 1] == w[0]);
        } else {
            assert(w.contains(w[0]));
        }
    }
}

/// With no room for nonces nothing is ever reported and nothing is kept.
pub proof fn lemma_zero_capacity_reports_nothing(
    model: ReplayModel,
    peer_id: Seq<char>,
    nonce: Seq<char>,
)
    requires
        windows_bounded(model),
        model.max_seen == 0,
    ensures
        !replay_step(model, peer_id, nonce).1,
        replay_step(model, peer_id, nonce).0.windows[peer_id].len() == 0,
{
}

/// The model after a sequence of `seen_before` calls, each a peer and a nonce,
/// together with what each call reported.
pub open spec fn replay_run(model: ReplayModel, calls: Seq<(Seq<char>, Seq<char>)>) -> (
    ReplayModel,
    Seq<bool>,
)
    decreases calls.len(),
{
    if calls.len() == 0 {
        (model, Seq::empty())
    } else {
        let before = replay_run(model, calls.drop_last());
        let after = replay_step(before.0, calls.last().0, calls.last().1);
        (after.0, before.1.push(after.1))
    }
}

/// The nonces newly recorded for `peer_id` over a sequence of calls, in call
/// order: those of its calls that were not reported.
pub open spec fn recorded_nonces(
    model: ReplayModel,
    calls: Seq<(Seq<char>, Seq<char>)>,
    peer_id: Seq<char>,
) -> Seq<Seq<char>>
    decreases calls.len(),
{
    if calls.len() == 0 {
        Seq::empty()
    } else {
        let earlier = recorded_nonces(model, calls.drop_last(), peer_id);
        let before = replay_run(model, calls.drop_last()).0;
        if calls.last().0 == peer_id && !replay_step(before, peer_id, calls.last().1).1 {
            earlier.push(calls.last().1)
        } else {
            earlier
        }
    }
}

/// The last `m` elements of `s` (all of them when there are fewer).
pub open spec fn last_n(s: Seq<Seq<char>>, m: nat) -> Seq<Seq<char>> {
    if s.len() <= m {
        s
    } else {
        s.subrange(s.len() - m, s.len() as int)
    }
}

/// Sliding a window that holds the last `m` of a history is keeping the last
/// `m` of the history with the nonce appended.
proof fn lemma_slide_last_n(history: Seq<Seq<char>>, nonce: Seq<char>, m: nat)
    ensures
        slide(last_n(history, m), nonce, m) == last_n(history.push(nonce), m),
{
    let grown = history.push(nonce);
    assert(slide(last_n(history, m), nonce, m) =~= last_n(grown, m));
}

/// Starting with every window empty, a peer's window after any sequence of
/// calls holds the last `max_seen` nonces newly recorded for that peer, oldest
/// first; so the next call on that peer reports exactly the nonces among them.
pub proof fn lemma_window_is_recent_history(
    model: ReplayModel,
    calls: Seq<(Seq<char>, Seq<char>)>,
    peer_id: Seq<char>,
    nonce: Seq<char>,
)
    requires
        forall|p: Seq<char>| #[trigger] model.windows[p] == Seq::<Seq<char>>::empty(),
    ensures
        replay_run(model, calls).0.max_seen == model.max_seen,
        replay_run(model, calls).0.windows[peer_id] == last_n(
            recorded_nonces(model, calls, peer_id),
            model.max_seen,
        ),
        replay_step(replay_run(model, calls).0, peer_id, nonce).1 == last_n(
            recorded_nonces(model, calls, peer_id),
            model.max_seen,
        ).contains(nonce),
    decreases calls.len(),
{
    if calls.len() > 0 {
        let (p, n) = calls.last();
        lemma_window_is_recent_history(model, calls.drop_last(), peer_id, nonce);
        lemma_window_is_recent_history(model, calls.drop_last(), p, n);
        let before = replay_run(model, calls.drop_last()).0;
        if p == peer_id && !replay_step(before, p, n).1 {
            lemma_slide_last_n(recorded_nonces(model, calls.drop_last(), peer_id), n, model.max_seen);
        }
    } else {
        assert(last_n(Seq::<Seq<char>>::empty(), model.max_seen) =~= Seq::<Seq<char>>::empty());
    }
}

/// Calls on other peers neither record nor evict anything of a peer's window,
/// so what the next call on that peer reports is unchanged by them.
pub proof fn lemma_other_peers_calls_irrelevant(
    model: ReplayModel,
    calls: Seq<(Seq<char>, Seq<char>)>,
    peer_id: Seq<char>,
    nonce: Seq<char>,
)
    requires
        forall|i: int| 0 <= i < calls.len() ==> (#[trigger] calls[i]).0 != peer_id,
    ensures
        replay_run(model, calls).0.windows[peer_id] == model.windows[peer_id],
        replay_run(model, calls).0.max_seen == model.max_seen,
        replay_step(replay_run(model, calls).0, peer_id, nonce).1 == replay_step(
            model,
            peer_id,
            nonce,
        ).1,
        replay_step(replay_run(model, calls).0, peer_id, nonce).0.windows[peer_id] == replay_step(
            model,
            peer_id,
            nonce,
        ).0.windows[peer_id],
    decreases calls.len(),
{
    if calls.len() > 0 {
        assert forall|i: int| 0 <= i < calls.drop_last().len() implies (
        #[trigger] calls.drop_last()[i]).0 != peer_id by {
            assert(calls.drop_last()[i] == calls[i]);
        }
        assert(calls[calls.len() - 1].0 != peer_id);
        lemma_other_peers_calls_irrelevant(model, calls.drop_last(), peer_id, nonce);
    }
}

/// Windows stay bounded by `max_seen` and free of repeats over any sequence of
/// calls: at most `max_seen` nonces of a peer are reported at any time.
pub proof fn lemma_run_keeps_bounds(model: ReplayModel, calls: Seq<(Seq<char>, Seq<char>)>)
    requires
        windows_bounded(model),
    ensures
        windows_bounded(replay_run(model, calls).0),
    decreases calls.len(),
{
    if calls.len() > 0 {
        lemma_run_keeps_bounds(model, calls.drop_last());
        lemma_step_keeps_bounds(
            replay_run(model, calls.drop_last()).0,
            calls.last().0,
            calls.last().1,
        );
    }
}

/// A nonce stands among the last `m` of a history exactly while fewer than `m`
/// entries follow its last occurrence.
proof fn lemma_last_n_contains(history: Seq<Seq<char>>, m: nat, k: int)
    requires
        0 <= k < history.len(),
        forall|j: int| k < j < history.len() ==> #[trigger] history[j] != history[k],
    ensures
        last_n(history, m).contains(history[k]) <==> history.len() - 1 - k < m,
{
    let w = last_n(history, m);
    let start = history.len() - w.len();
    if history.len() - 1 - k < m {
        assert(w[k - start] == history[k]);
    }
    if w.contains(history[k]) {
        let j = choose|j: int| 0 <= j < w.len() && w[j] == history[k];
        assert(history[j + start] == history[k]);
    }
}

/// Starting with every window empty: a nonce newly recorded for a peer is
/// reported by the next call on that peer exactly while fewer than
/// `max_seen` nonces have been newly recorded for that peer after it.
pub proof fn lemma_recorded_nonce_lifetime(
    model: ReplayModel,
    calls: Seq<(Seq<char>, Seq<char>)>,
    peer_id: Seq<char>,
    k: int,
)
    requires
        forall|p: Seq<char>| #[trigger] model.windows[p] == Seq::<Seq<char>>::empty(),
        0 <= k < recorded_nonces(model, calls, peer_id).len(),
        forall|j: int|
            k < j < recorded_nonces(model, calls, peer_id).len() ==> #[trigger] recorded_nonces(
                model,
                calls,
                peer_id,
            )[j] != recorded_nonces(model, calls, peer_id)[k],
    ensures
        replay_step(
            replay_run(model, calls).0,
            peer_id,
            recorded_nonces(model, calls, peer_id)[k],
        ).1 <==> recorded_nonces(model, calls, peer_id).len() - 1 - k < model.max_seen,
{
    let history = recorded_nonces(model, calls, peer_id);
    lemma_window_is_recent_history(model, calls, peer_id, history[k]);
    lemma_last_n_contains(history, model.max_seen, k);
}

/// The window that the last entry for `peer_id` holds, or none.
pub open spec fn lookup_window(entries: Seq<(Seq<char>, Seq<Seq<char>>)>, peer_id: Seq<char>) -> Seq<
    Seq<char>,
>
    decreases entries.len(),
{
    if entries.len() == 0 {
        Seq::empty()
    } else if entries.last().0 == peer_id {
        entries.last().1
    } else {
        lookup_window(entries.drop_last(), peer_id)
    }
}

/// No two entries are for the same peer.
pub open spec fn distinct_peers(entries: Seq<(Seq<char>, Seq<Seq<char>>)>) -> bool {
    forall|i: int, j: int|
        0 <= i < j < entries.len() ==> #[trigger] entries[i].0 != #[trigger] entries[j].0
}

/// Looking up the peer of an entry finds that entry's window.
proof fn lemma_lookup_finds(entries: Seq<(Seq<char>, Seq<Seq<char>>)>, i: int)
    requires
        distinct_peers(entries),
        0 <= i < entries.len(),
    ensures
        lookup_window(entries, entries[i].0) == entries[i].1,
    decreases entries.len(),
{
    if i < entries.len() - 1 {
        assert(entries.drop_last()[i] == entries[i]);
        lemma_lookup_finds(entries.drop_last(), i);
    }
}

/// Looking up a peer without an entry finds nothing.
proof fn lemma_lookup_absent(entries: Seq<(Seq<char>, Seq<Seq<char>>)>, peer_id: Seq<char>)
    requires
        forall|i: int| 0 <= i < entries.len() ==> #[trigger] entries[i].0 != peer_id,
    ensures
        lookup_window(entries, peer_id) == Seq::<Seq<char>>::empty(),
    decreases entries.len(),
{
    if entries.len() > 0 {
        assert forall|i: int| 0 <= i < entries.drop_last().len() implies #[trigger] entries.drop_last()[i].0
            != peer_id by {
            assert(entries.drop_last()[i] == entries[i]);
        }
        lemma_lookup_absent(entries.drop_last(), peer_id);
    }
}

/// Replacing the window of one entry changes the lookup of that peer only.
proof fn lemma_lookup_update(
    entries: Seq<(Seq<char>, Seq<Seq<char>>)>,
    i: int,
    window: Seq<Seq<char>>,
    peer_id: Seq<char>,
)
    requires
        distinct_peers(entries),
        0 <= i < entries.len(),
    ensures
        lookup_window(entries.update(i, (entries[i].0, window)), peer_id) == if peer_id
            == entries[i].0 {
            window
        } else {
            lookup_window(entries, peer_id)
        },
    decreases entries.len(),
{
    let updated = entries.update(i, (entries[i].0, window));
    if i < entries.len() - 1 {
        assert(updated.drop_last() =~= entries.drop_last().update(i, (entries[i].0, window)));
        assert(entries.drop_last()[i] == entries[i]);
        assert(distinct_peers(entries.drop_last()));
        lemma_lookup_update(entries.drop_last(), i, window, peer_id);
        if peer_id == entries[i].0 {
            assert(entries.last().0 != entries[i].0);
        }
    } else {
        assert(updated.drop_last() =~= entries.drop_last());
    }
}

/// A lookup finds nothing or the window of some entry.
proof fn lemma_lookup_source(entries: Seq<(Seq<char>, Seq<Seq<char>>)>, peer_id: Seq<char>)
    ensures
        lookup_window(entries, peer_id) == Seq::<Seq<char>>::empty() || exists|i: int|
            0 <= i < entries.len() && lookup_window(entries, peer_id) == #[trigger] entries[i].1,
    decreases entries.len(),
{
    if entries.len() > 0 && entries.last().0 != peer_id {
        lemma_lookup_source(entries.drop_last(), peer_id);
        if lookup_window(entries, peer_id) != Seq::<Seq<char>>::empty() {
            let i = choose|i: int|
                0 <= i < entries.drop_last().len() && lookup_window(entries.drop_last(), peer_id)
                    == #[trigger] entries.drop_last()[i].1;
            assert(entries.drop_last()[i] == entries[i]);
        }
    } else if entries.len() > 0 {
        assert(lookup_window(entries, peer_id) == entries[entries.len() - 1].1);
    }
}

/// A peer and the nonces remembered for it, oldest first.
#[derive(Debug)]
struct PeerNonces {
    peer_id: String,
    nonces: VecDeque<String>,
}

/// The key and window of one entry.
spec fn entry_view(entry: PeerNonces) -> (Seq<char>, Seq<Seq<char>>) {
    (entry.peer_id@, string_views(entry.nonces@))
}

/// Remembers, per peer, the most recent `max_seen` distinct nonces, so that a
/// message carrying a nonce already seen from its sender can be refused.
///
/// The peers are kept in a list searched by id, and each peer's nonces in a
/// queue searched in order: vstd specifies hash maps and sets only for keys that
/// obey its key model, which `String` keys are not known to do, so a hash map
/// keyed by peer id could carry no contract. That every peer occurs once and no
/// queue holds a nonce twice is the type's invariant.
#[derive(Debug)]
pub struct ReplayWindow {
    max_seen: usize,
    peers: Vec<PeerNonces>,
}

/// The entries of a list of peers: for each peer, its id and its nonces.
spec fn entries_of(peers: Seq<PeerNonces>) -> Seq<(Seq<char>, Seq<Seq<char>>)> {
    peers.map_values(|e: PeerNonces| entry_view(e))
}

/// One entry per peer, and each window bounded by `max_seen` and without
/// repeats.
spec fn peers_wf(peers: Seq<PeerNonces>, max_seen: usize) -> bool {
    &&& distinct_peers(entries_of(peers))
    &&& forall|i: int|
        0 <= i < peers.len() ==> (#[trigger] entries_of(peers)[i]).1.len() <= max_seen
    &&& forall|i: int| 0 <= i < peers.len() ==> (#[trigger] entries_of(peers)[i]).1.no_duplicates()
}

/// The index of the entry for `peer_id`, if there is one.
fn find_peer(peers: &Vec<PeerNonces>, peer_id: &String) -> (index: Option<usize>)
    ensures
        match index {
            Some(i) => i < peers@.len() && entries_of(peers@)[i as int].0 == peer_id@,
            None => forall|i: int|
                0 <= i < peers@.len() ==> #[trigger] entries_of(peers@)[i].0 != peer_id@,
        },
{
    let mut i: usize = 0;
    while i < peers.len()
        invariant
            i <= peers@.len(),
            forall|j: int| 0 <= j < i ==> #[trigger] entries_of(peers@)[j].0 != peer_id@,
        decreases peers@.len() - i,
    {
        if peers[i].peer_id == *peer_id {
            return Some(i);
        }
        i = i + 1;
    }
    None
}

impl ReplayWindow {
    /// The entries of this window: for each peer, its id and its nonces.
    closed spec fn entries(self) -> Seq<(Seq<char>, Seq<Seq<char>>)> {
        entries_of(self.peers@)
    }

    /// The internal invariant: one entry per peer, and each window bounded and
    /// without repeats.
    #[verifier::type_invariant]
    closed spec fn wf(self) -> bool {
        peers_wf(self.peers@, self.max_seen)
    }

    /// A window that remembers up to `max_seen` nonces per peer and has seen
    /// none yet.
    pub fn new(max_seen: usize) -> (window: Self)
        ensures
            window@.max_seen == max_seen,
            forall|p: Seq<char>| window@.windows[p] == Seq::<Seq<char>>::empty(),
            windows_bounded(window@),
    {
        let peers: Vec<PeerNonces> = Vec::new();
        assert(entries_of(peers@) =~= Seq::<(Seq<char>, Seq<Seq<char>>)>::empty());
        ReplayWindow { max_seen, peers }
    }

    /// The view of a well-formed window is bounded.
    proof fn lemma_view_bounded(self)
        requires
            self.wf(),
        ensures
            windows_bounded(self@),
    {
        assert forall|p: Seq<char>|
            #[trigger] self@.windows[p].len() <= self@.max_seen && self@.windows[p].no_duplicates() by {
            lemma_lookup_source(self.entries(), p);
            if self@.windows[p] != Seq::<Seq<char>>::empty() {
                let i = choose|i: int|
                    0 <= i < self.entries().len() && lookup_window(self.entries(), p)
                        == #[trigger] self.entries()[i].1;
                assert(self.entries()[i].1.len() <= self.max_seen);
            }
        }
        assert forall|p: Seq<char>| #[trigger] self@.windows[p].no_duplicates() by {
            assert(self@.windows[p].len() <= self@.max_seen);
        }
    }
}

/// Whether `nonces` holds `nonce`.
fn holds_nonce(nonces: &VecDeque<String>, nonce: &String) -> (found: bool)
    ensures
        found == string_views(nonces@).contains(nonce@),
{
    let mut i: usize = 0;
    while i < nonces.len()
        invariant
            i <= nonces@.len(),
            forall|j: int| 0 <= j < i ==> #[trigger] nonces@[j]@ != nonce@,
        decreases nonces@.len() - i,
    {
        if nonces[i] == *nonce {
            assert(string_views(nonces@)[i as int] == nonce@);
            return true;
        }
        i = i + 1;
    }
    assert forall|j: int| 0 <= j < string_views(nonces@).len() implies #[trigger] string_views(
        nonces@,
    )[j] != nonce@ by {
        assert(string_views(nonces@)[j] == nonces@[j]@);
    }
    false
}

/// Appends `nonce`, then drops the oldest nonces while more than `max_seen`
/// are held.
fn record_nonce(nonces: &mut VecDeque<String>, nonce: String, max_seen: usize)
    requires
        string_views(old(nonces)@).no_duplicates(),
        !string_views(old(nonces)@).contains(nonce@),
    ensures
        string_views(final(nonces)@) == slide(string_views(old(nonces)@), nonce@, max_seen as nat),
        string_views(final(nonces)@).no_duplicates(),
        final(nonces)@.len() <= max_seen,
{
    let ghost grown = string_views(old(nonces)@).push(nonce@);
    nonces.push_back(nonce);
    assert(string_views(nonces@) =~= grown);
    while nonces.len() > max_seen
        invariant
            nonces@.len() <= grown.len(),
            string_views(nonces@) == grown.subrange(grown.len() - nonces@.len(), grown.len() as int),
            nonces@.len() < grown.len() ==> nonces@.len() >= max_seen,
        decreases nonces@.len(),
    {
        let ghost before = nonces@;
        let _ = nonces.pop_front();
        assert(string_views(nonces@) =~= string_views(before).subrange(1, before.len() as int));
        assert(string_views(nonces@) =~= grown.subrange(
            grown.len() - nonces@.len(),
            grown.len() as int,
        ));
    }
    assert(grown.no_duplicates());
    assert(string_views(nonces@) == slide(string_views(old(nonces)@), nonce@, max_seen as nat));
}

impl ReplayWindow {
    /// Reports whether `nonce` was already seen from `peer_id`; a nonce not seen
    /// before is recorded, and the peer's oldest nonces are forgotten while more
    /// than `max_seen` are held. Other peers' windows are untouched.
    pub fn seen_before(&mut self, peer_id: &str, nonce: &str) -> (seen: bool)
        ensures
            (final(self)@, seen) == replay_step(old(self)@, peer_id@, nonce@),
            windows_bounded(final(self)@),
    {
        proof {
            use_type_invariant(&*self);
            self.lemma_view_bounded();
        }
        let peer = peer_id.to_owned();
        let nonce = nonce.to_owned();
        let max_seen = self.max_seen;
        let ghost old_entries = self.entries();
        let mut peers: Vec<PeerNonces> = Vec::new();
        std::mem::swap(&mut peers, &mut self.peers);
        assert(entries_of(peers@) == old_entries);
        match find_peer(&peers, &peer) {
            Some(i) => {
                proof {
                    lemma_lookup_finds(old_entries, i as int);
                }
                if holds_nonce(&peers[i].nonces, &nonce) {
                    self.peers = peers;
                    return true;
                }
                let ghost key = old_entries[i as int].0;
                record_nonce(&mut peers[i].nonces, nonce, max_seen);
                let ghost new_window = string_views(peers@[i as int].nonces@);
                assert(entries_of(peers@) =~= old_entries.update(i as int, (key, new_window)));
                self.peers = peers;
                assert forall|p: Seq<char>|
                    #[trigger] lookup_window(self.entries(), p) == (if p == key {
                        new_window
                    } else {
                        lookup_window(old_entries, p)
                    }) by {
                    lemma_lookup_update(old_entries, i as int, new_window, p);
                }
                assert(self@.windows =~= old(self)@.windows.insert(
                    peer_id@,
                    slide(old(self)@.windows[peer_id@], nonce@, max_seen as nat),
                ));
            },
            None => {
                proof {
                    lemma_lookup_absent(old_entries, peer@);
                }
                let mut nonces: VecDeque<String> = VecDeque::new();
                assert(string_views(nonces@) =~= Seq::<Seq<char>>::empty());
                record_nonce(&mut nonces, nonce, max_seen);
                let ghost new_window = string_views(nonces@);
                peers.push(PeerNonces { peer_id: peer, nonces });
                assert(entries_of(peers@) =~= old_entries.push((peer@, new_window)));
                assert(entries_of(peers@).drop_last() =~= old_entries);
                self.peers = peers;
                assert(self@.windows =~= old(self)@.windows.insert(
                    peer_id@,
                    slide(old(self)@.windows[peer_id@], nonce@, max_seen as nat),
                ));
            },
        }
        proof {
            use_type_invariant(&*self);
            self.lemma_view_bounded();
        }
        false
    }
}

/// A copy of a queue of nonces.
fn copy_nonces(nonces: &VecDeque<String>) -> (copy: VecDeque<String>)
    ensures
        copy@ == nonces@,
{
    let mut copy: VecDeque<String> = VecDeque::new();
    let mut j: usize = 0;
    while j < nonces.len()
        invariant
            j <= nonces@.len(),
            copy@ == nonces@.take(j as int),
        decreases nonces@.len() - j,
    {
        copy.push_back(nonces[j].clone());
        assert(nonces@.take(j + 1) =~= nonces@.take(j as int).push(nonces@[j as int]));
        j = j + 1;
    }
    assert(nonces@.take(nonces@.len() as int) =~= nonces@);
    copy
}

impl Clone for ReplayWindow {
    /// A window with the same bound that remembers the same nonces.
    fn clone(&self) -> (copy: Self)
        ensures
            copy@ == self@,
    {
        proof {
            use_type_invariant(self);
        }
        let mut peers: Vec<PeerNonces> = Vec::new();
        let mut i: usize = 0;
        while i < self.peers.len()
            invariant
                i <= self.peers@.len(),
                peers_wf(self.peers@, self.max_seen),
                entries_of(peers@) == entries_of(self.peers@).take(i as int),
            decreases self.peers@.len() - i,
        {
            let entry = &self.peers[i];
            let copy = PeerNonces { peer_id: entry.peer_id.clone(), nonces: copy_nonces(&entry.nonces) };
            assert(entry_view(copy) == entry_view(self.peers@[i as int]));
            let ghost before = peers@;
            peers.push(copy);
            assert(peers@ == before.push(copy));
            assert(entries_of(peers@) =~= entries_of(before).push(entry_view(copy)));
            assert(entries_of(peers@) =~= entries_of(self.peers@).take(i + 1));
            i = i + 1;
        }
        assert(entries_of(self.peers@).take(self.peers@.len() as int) =~= entries_of(self.peers@));
        let copy = ReplayWindow { max_seen: self.max_seen, peers };
        assert(copy.entries() == self.entries());
        assert(copy@.windows =~= self@.windows);
        copy
    }
}

impl View for ReplayWindow {
    type V = ReplayModel;

    closed spec fn view(&self) -> ReplayModel {
        ReplayModel {
            max_seen: self.max_seen as nat,
            windows: Map::new(|p: Seq<char>| true, |p: Seq<char>| lookup_window(self.entries(), p)),
        }
    }
}

} // verus!
