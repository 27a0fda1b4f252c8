//! The ordered playback queue owned by the host.
//!
//! The queue is a sequence of entries and an optional index of the current
//! (playing or about-to-play) entry. The index may point one or more
//! places past the end once playback has run off the end of the queue.
use crate::messages::{QueueItem, QueueItemStatus, QueueItemView};
use crate::ids::new_random_id;
use vstd::prelude::*;
use vstd::string::StringExecFns;

verus! {

/// Index of the first entry of `q` whose id is `id`, if any.
pub open spec fn first_index_of(q: Seq<QueueItemView>, id: u128) -> Option<int> {
    if exists|i: int| 0 <= i < q.len() && q[i].id == id && forall|j: int| 0 <= j < i ==> q[j].id != id {
        Some(choose|i: int| 0 <= i < q.len() && q[i].id == id && forall|j: int| 0 <= j < i ==> q[j].id != id)
    } else {
        None
    }
}

proof fn lemma_first_index_of(q: Seq<QueueItemView>, id: u128, i: int)
    requires
        0 <= i <= q.len(),
        i < q.len() ==> q[i].id == id,
        forall|j: int| 0 <= j < i ==> q[j].id != id,
    ensures
        first_index_of(q, id) == if i < q.len() { Some(i) } else { None::<int> },
{
    if i < q.len() {
        let k = choose|k: int| 0 <= k < q.len() && q[k].id == id && forall|j: int| 0 <= j < k ==> q[j].id != id;
        assert(k == i) by {
            if k < i {
                assert(q[k].id != id);
            }
            if i < k {
                assert(q[i].id != id);
            }
        }
    }
}

/// Marking the id of an entry just pushed, when no earlier entry has that
/// id, marks exactly that entry.
pub proof fn lemma_mark_pushed(q: Seq<QueueItemView>, e: QueueItemView, s: QueueItemStatus)
    requires
        forall|j: int| 0 <= j < q.len() ==> #[trigger] q[j].id != e.id,
    ensures
        mark_spec(q.push(e), e.id, s) == q.push(QueueItemView { status: s, ..e }),
{
    let p = q.push(e);
    assert forall|j: int| 0 <= j < q.len() implies p[j].id != e.id by {
        assert(p[j] == q[j]);
    }
    lemma_first_index_of(p, e.id, q.len() as int);
    assert(with_status(p, q.len() as int, s) =~= q.push(QueueItemView { status: s, ..e }));
}

/// `q` with the status of the entry at `i` replaced by `s`.
pub open spec fn with_status(q: Seq<QueueItemView>, i: int, s: QueueItemStatus) -> Seq<QueueItemView> {
    q.update(i, QueueItemView { status: s, ..q[i] })
}

/// `q` with the first entry whose id is `id` given status `s` (unchanged
/// when there is none).
pub open spec fn mark_spec(q: Seq<QueueItemView>, id: u128, s: QueueItemStatus) -> Seq<QueueItemView> {
    match first_index_of(q, id) {
        Some(i) => with_status(q, i, s),
        None => q,
    }
}

/// Queue and current index after removing the first entry with `id`.
pub open spec fn remove_spec(q: Seq<QueueItemView>, current: Option<usize>, id: u128) -> (
    Seq<QueueItemView>,
    Option<usize>,
) {
    match first_index_of(q, id) {
        None => (q, current),
        Some(idx) => {
            let q2 = q.remove(idx);
            let c2 = match current {
                None => None,
                Some(ci) => if idx < ci {
                    Some((ci - 1) as usize)
                } else if idx == ci {
                    if q2.len() == 0 {
                        None
                    } else if ci >= q2.len() {
                        Some((q2.len() - 1) as usize)
                    } else {
                        Some(ci)
                    }
                } else {
                    Some(ci)
                },
            };
            (q2, c2)
        },
    }
}

/// `q` with the entry at `from` moved to position `to`.
pub open spec fn move_entry(q: Seq<QueueItemView>, from: int, to: int) -> Seq<QueueItemView> {
    q.remove(from).insert(to, q[from])
}

/// Current index after moving the entry at `from` to `to`.
pub open spec fn reorder_current(current: Option<usize>, from: int, to: int) -> Option<usize> {
    match current {
        None => None,
        Some(ci) => if from == ci {
            Some(to as usize)
        } else {
            let c1 = if from < ci { ci - 1 } else { ci as int };
            Some((if to <= c1 { c1 + 1 } else { c1 }) as usize)
        },
    }
}

/// Queue and current index after `advance`: the current entry (if any)
/// is marked played, and the index moves one place on (to 0 when there is
/// no current entry).
pub open spec fn advance_spec(q: Seq<QueueItemView>, current: Option<usize>) -> (
    Seq<QueueItemView>,
    usize,
) {
    match current {
        Some(ci) => (
            if ci < q.len() {
                with_status(q, ci as int, QueueItemStatus::Played)
            } else {
                q
            },
            (ci + 1) as usize,
        ),
        None => (q, 0),
    }
}

/// Manages the ordered playback queue.
/// Ids of the entries from the current one (the first when there is
/// none) on, at most `n` of them.
pub open spec fn upcoming_spec(q: Seq<QueueItemView>, current: Option<usize>, n: int) -> Seq<u128> {
    let start: int = match current {
        Some(ci) => if ci < q.len() {
            ci as int
        } else {
            q.len() as int
        },
        None => 0,
    };
    let end: int = if start + n <= q.len() {
        start + n
    } else {
        q.len() as int
    };
    q.subrange(start, end).map_values(|e: QueueItemView| e.id)
}

/// The queue started over: every `Played` entry is `Ready` again.
pub open spec fn restart_spec(q: Seq<QueueItemView>) -> Seq<QueueItemView> {
    q.map_values(
        |e: QueueItemView|
            if e.status == QueueItemStatus::Played {
                QueueItemView { status: QueueItemStatus::Ready, ..e }
            } else {
                e
            },
    )
}

/// Which track "play" starts.
#[derive(Clone, Copy, Debug, PartialEq, Eq, Structural)]
pub enum PlayChoice {
    /// Start the ready track with this id from the beginning.
    Start(u128),
    /// The track with this id is already playing: resume it.
    Resume(u128),
}

/// Why "play" has nothing to start.
#[derive(Clone, Copy, Debug, PartialEq, Eq, Structural)]
pub enum PlayError {
    NoTrackReady,
}

impl PlayError {
    /// Human-readable description of the error.
    pub fn message(&self) -> (s: String)
        ensures
            s@ == "No tracks ready to play."@,
    {
        String::from_str("No tracks ready to play.")
    }
}

/// The queue, current index and choice after "play": a ready current track
/// is started and a playing one resumed; otherwise the queue advances, and
/// when that finds no ready track in a non-empty queue, the queue starts
/// over and its first entry is taken if it is ready.
pub open spec fn play_choice_spec(q: Seq<QueueItemView>, current: Option<usize>) -> (
    Seq<QueueItemView>,
    Option<usize>,
    Option<PlayChoice>,
) {
    match current {
        Some(ci) if ci < q.len() && q[ci as int].status == QueueItemStatus::Ready => (
            q,
            current,
            Some(PlayChoice::Start(q[ci as int].id)),
        ),
        Some(ci) if ci < q.len() && q[ci as int].status == QueueItemStatus::Playing => (
            q,
            current,
            Some(PlayChoice::Resume(q[ci as int].id)),
        ),
        _ => {
            let a = advance_spec(q, current);
            if a.1 < a.0.len() && a.0[a.1 as int].status == QueueItemStatus::Ready {
                (a.0, Some(a.1), Some(PlayChoice::Start(a.0[a.1 as int].id)))
            } else if q.len() == 0 {
                (a.0, Some(a.1), None)
            } else {
                let r = restart_spec(a.0);
                if r[0].status == QueueItemStatus::Ready {
                    (r, Some(0usize), Some(PlayChoice::Start(r[0].id)))
                } else {
                    (r, Some(0usize), None)
                }
            }
        },
    }
}

pub struct QueueManager {
    queue: Vec<QueueItem>,
    current_index: Option<usize>,
}

impl QueueManager {
    /// The entries, in order.
    pub closed spec fn entries(&self) -> Seq<QueueItemView> {
        self.queue@.map_values(|q: QueueItem| q@)
    }

    /// The current index.
    pub closed spec fn current_spec(&self) -> Option<usize> {
        self.current_index
    }

    /// The current index can always be moved one place on.
    pub open spec fn wf(&self) -> bool {
        match self.current_spec() {
            Some(ci) => ci < usize::MAX,
            None => true,
        }
    }

    /// Create an empty queue.
    pub fn new() -> (qm: Self)
        ensures
            qm.wf(),
            qm.entries() == Seq::<QueueItemView>::empty(),
            qm.current_spec() == None::<usize>,
    {
        let qm = QueueManager { queue: Vec::new(), current_index: None };
        assert(qm.entries() =~= Seq::<QueueItemView>::empty());
        qm
    }

    /// Reset the queue to its initial empty state.
    pub fn clear(&mut self)
        ensures
            final(self).wf(),
            final(self).entries() == Seq::<QueueItemView>::empty(),
            final(self).current_spec() == None::<usize>,
    {
        self.queue.clear();
        self.current_index = None;
        assert(self.entries() =~= Seq::<QueueItemView>::empty());
    }

    /// Add a track to the end of the queue with a freshly generated id,
    /// in the `Transferring` state. Returns the id.
    pub fn add(&mut self, file_name: String, duration_secs_bits: u64, added_by: String) -> (id: u128)
        requires
            old(self).wf(),
        ensures
            final(self).wf(),
            final(self).entries() == old(self).entries().push(
                QueueItemView {
                    id,
                    file_name: file_name@,
                    duration_secs_bits,
                    added_by: added_by@,
                    status: QueueItemStatus::Transferring,
                },
            ),
            final(self).current_spec() == old(self).current_spec(),
    {
        let id = new_random_id();
        self.add_with_id(id, file_name, duration_secs_bits, added_by);
        id
    }

    /// Add a track with the given id to the end of the queue, in the
    /// `Transferring` state.
    pub fn add_with_id(&mut self, id: u128, file_name: String, duration_secs_bits: u64, added_by: String)
        requires
            old(self).wf(),
        ensures
            final(self).wf(),
            final(self).entries() == old(self).entries().push(
                QueueItemView {
                    id,
                    file_name: file_name@,
                    duration_secs_bits,
                    added_by: added_by@,
                    status: QueueItemStatus::Transferring,
                },
            ),
            final(self).current_spec() == old(self).current_spec(),
    {
        let item = QueueItem {
            id,
            file_name,
            duration_secs_bits,
            added_by,
            status: QueueItemStatus::Transferring,
        };
        let ghost v = item@;
        self.queue.push(item);
        assert(self.entries() =~= old(self).entries().push(v));
    }

    /// Position of the first entry whose id is `id`.
    fn position(&self, id: u128) -> (r: Option<usize>)
        ensures
            match r {
                Some(i) => first_index_of(self.entries(), id) == Some(i as int),
                None => first_index_of(self.entries(), id) == None::<int>,
            },
    {
        let n = self.queue.len();
        let mut i: usize = 0;
        while i < n
            invariant
                n == self.queue@.len(),
                i <= n,
                forall|j: int| 0 <= j < i ==> self.entries()[j].id != id,
            decreases n - i,
        {
            if self.queue[i].id == id {
                proof {
                    lemma_first_index_of(self.entries(), id, i as int);
                }
                return Some(i);
            }
            i = i + 1;
        }
        proof {
            lemma_first_index_of(self.entries(), id, n as int);
        }
        None
    }

    /// Remove the first track with `id`. Returns `true` if one was found.
    ///
    /// The current index keeps pointing at the same track when another
    /// track is removed; when the current track itself is removed it points
    /// at the following track (or the new last track, or nothing when the
    /// queue becomes empty).
    pub fn remove(&mut self, id: u128) -> (found: bool)
        requires
            old(self).wf(),
        ensures
            final(self).wf(),
            found == (first_index_of(old(self).entries(), id) is Some),
            (final(self).entries(), final(self).current_spec()) == remove_spec(
                old(self).entries(),
                old(self).current_spec(),
                id,
            ),
    {
        let pos = self.position(id);
        let idx = match pos {
            Some(i) => i,
            None => {
                return false;
            },
        };
        let ghost e0 = self.entries();
        self.queue.remove(idx);
        assert(self.entries() =~= e0.remove(idx as int));
        if let Some(ci) = self.current_index {
            if idx < ci {
                self.current_index = Some(ci - 1);
            } else if idx == ci {
                if self.queue.len() == 0 {
                    self.current_index = None;
                } else if ci >= self.queue.len() {
                    self.current_index = Some(self.queue.len() - 1);
                }
            }
        }
        true
    }

    /// Move the track at `from_index` to `to_index`. Returns `false` (and
    /// changes nothing) when either index is out of range.
    pub fn reorder(&mut self, from_index: usize, to_index: usize) -> (ok: bool)
        requires
            old(self).wf(),
        ensures
            final(self).wf(),
            ok == (from_index < old(self).entries().len() && to_index < old(self).entries().len()),
            !ok ==> final(self).entries() == old(self).entries() && final(self).current_spec()
                == old(self).current_spec(),
            ok && from_index == to_index ==> final(self).entries() == old(self).entries()
                && final(self).current_spec() == old(self).current_spec(),
            ok && from_index != to_index ==> final(self).entries() == move_entry(
                old(self).entries(),
                from_index as int,
                to_index as int,
            ) && final(self).current_spec() == reorder_current(
                old(self).current_spec(),
                from_index as int,
                to_index as int,
            ),
    {
        if from_index >= self.queue.len() || to_index >= self.queue.len() {
            return false;
        }
        if from_index == to_index {
            return true;
        }
        let ghost e0 = self.entries();
        let item = self.queue.remove(from_index);
        self.queue.insert(to_index, item);
        assert(self.entries() =~= move_entry(e0, from_index as int, to_index as int));
        if let Some(ci) = self.current_index {
            if from_index == ci {
                self.current_index = Some(to_index);
            } else {
                let mut new_ci = ci;
                if from_index < ci {
                    new_ci = new_ci - 1;
                }
                if to_index <= new_ci {
                    new_ci = new_ci + 1;
                }
                self.current_index = Some(new_ci);
            }
        }
        true
    }

    /// A copy of the whole queue.
    pub fn get_queue(&self) -> (r: Vec<QueueItem>)
        ensures
            r@.map_values(|q: QueueItem| q@) == self.entries(),
    {
        let n = self.queue.len();
        let mut out: Vec<QueueItem> = Vec::new();
        let mut i: usize = 0;
        while i < n
            invariant
                n == self.queue@.len(),
                i <= n,
                out@.map_values(|q: QueueItem| q@) == self.entries().take(i as int),
            decreases n - i,
        {
            let item = self.queue[i].duplicate();
            assert(item@ == self.entries()[i as int]);
            let ghost before = out@;
            out.push(item);
            assert(out@ == before.push(item));
            assert(out@.map_values(|q: QueueItem| q@) =~= before.map_values(|q: QueueItem| q@).push(
                item@,
            ));
            assert(self.entries().take(i + 1) =~= self.entries().take(i as int).push(item@));
            i = i + 1;
        }
        assert(self.entries().take(n as int) =~= self.entries());
        out
    }

    /// The current track, if the current index points into the queue.
    pub fn current(&self) -> (r: Option<&QueueItem>)
        ensures
            match self.current_spec() {
                Some(ci) if ci < self.entries().len() => r is Some && r->0@ == self.entries()[ci as int],
                _ => r is None,
            },
    {
        match self.current_index {
            Some(i) => {
                if i < self.queue.len() {
                    Some(&self.queue[i])
                } else {
                    None
                }
            },
            None => None,
        }
    }

    /// The track after the current one, without advancing.
    pub fn peek_next(&self) -> (r: Option<&QueueItem>)
        requires
            self.wf(),
        ensures
            match self.current_spec() {
                Some(ci) if ci + 1 < self.entries().len() => r is Some && r->0@ == self.entries()[ci + 1],
                _ => r is None,
            },
    {
        match self.current_index {
            Some(ci) => {
                if ci + 1 < self.queue.len() {
                    Some(&self.queue[ci + 1])
                } else {
                    None
                }
            },
            None => None,
        }
    }

    /// Whether some entry with `id` is `Ready`.
    pub fn is_ready(&self, id: u128) -> (r: bool)
        ensures
            r == exists|i: int|
                0 <= i < self.entries().len() && self.entries()[i].id == id && self.entries()[i].status
                    == QueueItemStatus::Ready,
    {
        let n = self.queue.len();
        let mut i: usize = 0;
        while i < n
            invariant
                n == self.queue@.len(),
                i <= n,
                forall|j: int|
                    0 <= j < i ==> !(self.entries()[j].id == id && self.entries()[j].status
                        == QueueItemStatus::Ready),
            decreases n - i,
        {
            if self.queue[i].id == id && self.queue[i].status == QueueItemStatus::Ready {
                assert(self.entries()[i as int].id == id);
                return true;
            }
            i = i + 1;
        }
        false
    }

    /// Number of entries.
    pub fn len(&self) -> (n: usize)
        ensures
            n == self.entries().len(),
    {
        self.queue.len()
    }

    /// Whether the queue is empty.
    pub fn is_empty(&self) -> (b: bool)
        ensures
            b == (self.entries().len() == 0),
    {
        self.queue.len() == 0
    }

    /// Ids of the current entry and the entries after it, at most `n` of
    /// them; from the first entry when there is no current entry.
    pub fn upcoming_ids(&self, n: usize) -> (ids: Vec<u128>)
        ensures
            ids@ == upcoming_spec(self.entries(), self.current_spec(), n as int),
    {
        let len = self.queue.len();
        let start: usize = match self.current_index {
            Some(ci) => if ci < len {
                ci
            } else {
                len
            },
            None => 0,
        };
        let end: usize = if n <= len - start {
            start + n
        } else {
            len
        };
        let mut ids: Vec<u128> = Vec::new();
        let mut i: usize = start;
        while i < end
            invariant
                len == self.queue@.len(),
                start <= i <= end <= len,
                ids@.len() == i - start,
                forall|j: int| 0 <= j < ids@.len() ==> ids@[j] == self.entries()[start + j].id,
            decreases end - i,
        {
            ids.push(self.queue[i].id);
            i = i + 1;
        }
        assert(ids@ =~= upcoming_spec(self.entries(), self.current_spec(), n as int));
        ids
    }

    /// The current index, if any.
    pub fn current_index(&self) -> (r: Option<usize>)
        ensures
            r == self.current_spec(),
    {
        self.current_index
    }

    /// Start the queue over: every `Played` entry becomes `Ready` again and
    /// there is no current entry.
    pub fn restart(&mut self)
        ensures
            final(self).wf(),
            final(self).entries() == restart_spec(old(self).entries()),
            final(self).current_spec() == None::<usize>,
    {
        let n = self.queue.len();
        let ghost e0 = self.entries();
        let mut i: usize = 0;
        while i < n
            invariant
                n == e0.len(),
                self.entries().len() == n,
                i <= n,
                forall|j: int| 0 <= j < i ==> #[trigger] self.entries()[j] == restart_spec(e0)[j],
                forall|j: int| i <= j < n ==> #[trigger] self.entries()[j] == e0[j],
            decreases n - i,
        {
            if self.queue[i].status == QueueItemStatus::Played {
                self.set_status(i, QueueItemStatus::Ready);
            }
            i = i + 1;
        }
        self.current_index = None;
        assert(self.entries() =~= restart_spec(e0));
    }

    /// Choose the track "play" starts, as `play_choice_spec` says, moving
    /// the queue on where it advances or starts over.
    pub fn choose_track_to_play(&mut self) -> (r: Result<PlayChoice, PlayError>)
        requires
            old(self).wf(),
            old(self).current_spec() != Some((usize::MAX - 1) as usize),
        ensures
            final(self).wf(),
            ({
                let c = play_choice_spec(old(self).entries(), old(self).current_spec());
                &&& final(self).entries() == c.0
                &&& final(self).current_spec() == c.1
                &&& match c.2 {
                    Some(p) => r == Ok::<PlayChoice, PlayError>(p),
                    None => r == Err::<PlayChoice, PlayError>(PlayError::NoTrackReady),
                }
            }),
    {
        match self.current() {
            Some(t) => {
                if t.status == QueueItemStatus::Ready {
                    return Ok(PlayChoice::Start(t.id));
                } else if t.status == QueueItemStatus::Playing {
                    return Ok(PlayChoice::Resume(t.id));
                }
            },
            None => {},
        }
        let has_tracks = !self.is_empty();
        match self.advance() {
            Some(t) => {
                return Ok(PlayChoice::Start(t.id));
            },
            None => {},
        }
        if !has_tracks {
            return Err(PlayError::NoTrackReady);
        }
        self.restart();
        match self.advance() {
            Some(t) => Ok(PlayChoice::Start(t.id)),
            None => Err(PlayError::NoTrackReady),
        }
    }

    /// Give the entry at `i` status `s`.
    fn set_status(&mut self, i: usize, s: QueueItemStatus)
        requires
            i < old(self).entries().len(),
        ensures
            final(self).entries() == with_status(old(self).entries(), i as int, s),
            final(self).current_spec() == old(self).current_spec(),
    {
        let ghost e0 = self.entries();
        let mut item = self.queue.remove(i);
        item.status = s;
        self.queue.insert(i, item);
        assert(self.entries() =~= with_status(e0, i as int, s));
    }

    /// Give the first entry with `id` status `s` (no change when absent).
    fn mark(&mut self, id: u128, s: QueueItemStatus)
        requires
            old(self).wf(),
        ensures
            final(self).wf(),
            final(self).entries() == mark_spec(old(self).entries(), id, s),
            final(self).current_spec() == old(self).current_spec(),
    {
        if let Some(i) = self.position(id) {
            self.set_status(i, s);
        }
    }

    /// Mark a track `Ready` (all peers have the file).
    pub fn mark_ready(&mut self, id: u128)
        requires
            old(self).wf(),
        ensures
            final(self).wf(),
            final(self).entries() == mark_spec(old(self).entries(), id, QueueItemStatus::Ready),
            final(self).current_spec() == old(self).current_spec(),
    {
        self.mark(id, QueueItemStatus::Ready);
    }

    /// Mark a track `Playing`.
    pub fn mark_playing(&mut self, id: u128)
        requires
            old(self).wf(),
        ensures
            final(self).wf(),
            final(self).entries() == mark_spec(old(self).entries(), id, QueueItemStatus::Playing),
            final(self).current_spec() == old(self).current_spec(),
    {
        self.mark(id, QueueItemStatus::Playing);
    }

    /// Mark a track `Played`.
    pub fn mark_played(&mut self, id: u128)
        requires
            old(self).wf(),
        ensures
            final(self).wf(),
            final(self).entries() == mark_spec(old(self).entries(), id, QueueItemStatus::Played),
            final(self).current_spec() == old(self).current_spec(),
    {
        self.mark(id, QueueItemStatus::Played);
    }

    /// Advance to the next track: the current track (if any) is marked
    /// `Played` and the index moves on (to 0 when nothing was current).
    /// Returns the new current track when it exists and is `Ready`.
    pub fn advance(&mut self) -> (r: Option<&QueueItem>)
        requires
            old(self).wf(),
            old(self).current_spec() != Some((usize::MAX - 1) as usize),
        ensures
            final(self).wf(),
            (final(self).entries(), final(self).current_spec()) == ({
                let a = advance_spec(old(self).entries(), old(self).current_spec());
                (a.0, Some(a.1))
            }),
            ({
                let a = advance_spec(old(self).entries(), old(self).current_spec());
                if a.1 < a.0.len() && a.0[a.1 as int].status == QueueItemStatus::Ready {
                    r is Some && r->0@ == a.0[a.1 as int]
                } else {
                    r is None
                }
            }),
    {
        let next_index = match self.current_index {
            Some(ci) => {
                if ci < self.queue.len() {
                    self.set_status(ci, QueueItemStatus::Played);
                }
                ci + 1
            },
            None => 0,
        };
        self.current_index = Some(next_index);
        if next_index < self.queue.len() {
            let item = &self.queue[next_index];
            if item.status == QueueItemStatus::Ready {
                Some(item)
            } else {
                None
            }
        } else {
            None
        }
    }

    /// Skip the current track: same as `advance`.
    pub fn skip(&mut self) -> (r: Option<&QueueItem>)
        requires
            old(self).wf(),
            old(self).current_spec() != Some((usize::MAX - 1) as usize),
        ensures
            final(self).wf(),
            (final(self).entries(), final(self).current_spec()) == ({
                let a = advance_spec(old(self).entries(), old(self).current_spec());
                (a.0, Some(a.1))
            }),
            ({
                let a = advance_spec(old(self).entries(), old(self).current_spec());
                if a.1 < a.0.len() && a.0[a.1 as int].status == QueueItemStatus::Ready {
                    r is Some && r->0@ == a.0[a.1 as int]
                } else {
                    r is None
                }
            }),
    {
        self.advance()
    }
}

// ── Laws ────────────────────────────────────────────────────────────────────

/// Removing a track other than the current one leaves the current index
/// on the same track.
pub proof fn law_remove_keeps_current_track(q: Seq<QueueItemView>, ci: usize, id: u128)
    requires
        ci < q.len(),
        first_index_of(q, id) is Some,
        first_index_of(q, id) != Some(ci as int),
    ensures
        ({
            let (q2, c2) = remove_spec(q, Some(ci), id);
            c2 is Some && c2->0 < q2.len() && q2[c2->0 as int] == q[ci as int]
        }),
{
    let idx = first_index_of(q, id)->0;
    let k = choose|k: int| 0 <= k < q.len() && q[k].id == id && forall|j: int| 0 <= j < k ==> q[j].id != id;
}

/// Removing the current track makes the following track current (or the
/// new last one when it was last; nothing when the queue empties).
pub proof fn law_remove_current_moves_to_next(q: Seq<QueueItemView>, ci: usize, id: u128)
    requires
        ci < q.len(),
        first_index_of(q, id) == Some(ci as int),
    ensures
        ({
            let (q2, c2) = remove_spec(q, Some(ci), id);
            &&& q2.len() == q.len() - 1
            &&& (q2.len() == 0 ==> c2 is None)
            &&& (ci + 1 < q.len() ==> c2 == Some(ci) && q2[ci as int] == q[ci + 1])
            &&& (ci + 1 == q.len() && q2.len() > 0 ==> c2 == Some((q2.len() - 1) as usize))
        }),
{
}

/// Moving a track keeps the current index on the same track.
pub proof fn law_reorder_keeps_current_track(q: Seq<QueueItemView>, ci: usize, from: usize, to: usize)
    requires
        ci < q.len(),
        from < q.len(),
        to < q.len(),
        from != to,
    ensures
        ({
            let c2 = reorder_current(Some(ci), from as int, to as int);
            c2 is Some && c2->0 < q.len() && move_entry(q, from as int, to as int)[c2->0 as int] == q[ci as int]
        }),
{
}

/// Moving a track back to where it came from restores the queue and the
/// current index.
pub proof fn law_reorder_inverse(q: Seq<QueueItemView>, current: Option<usize>, from: usize, to: usize)
    requires
        from < q.len(),
        to < q.len(),
        from != to,
        current matches Some(ci) ==> ci < q.len(),
    ensures
        move_entry(move_entry(q, from as int, to as int), to as int, from as int) == q,
        reorder_current(reorder_current(current, from as int, to as int), to as int, from as int)
            == current,
{
    let q1 = move_entry(q, from as int, to as int);
    assert(q1[to as int] == q[from as int]);
    assert(move_entry(q1, to as int, from as int) =~= q);
}

/// Adding a track with a new id and then removing that id restores the
/// queue and the current index (when the index points into the queue or
/// is unset).
pub proof fn law_add_then_remove(q: Seq<QueueItemView>, current: Option<usize>, item: QueueItemView)
    requires
        first_index_of(q, item.id) is None,
        current matches Some(ci) ==> ci < q.len(),
    ensures
        remove_spec(q.push(item), current, item.id) == (q, current),
{
    let q1 = q.push(item);
    assert forall|j: int| 0 <= j < q.len() implies q1[j].id != item.id by {
        if q1[j].id == item.id {
            lemma_least_index(q, item.id, j);
        }
    }
    lemma_first_index_of(q1, item.id, q.len() as int);
    assert(q1.remove(q.len() as int) =~= q);
}

proof fn lemma_least_index(q: Seq<QueueItemView>, id: u128, j: int)
    requires
        0 <= j < q.len(),
        q[j].id == id,
    ensures
        first_index_of(q, id) is Some,
    decreases j,
{
    if exists|m: int| 0 <= m < j && q[m].id == id {
        let m = choose|m: int| 0 <= m < j && q[m].id == id;
        lemma_least_index(q, id, m);
    } else {
        assert(0 <= j < q.len() && q[j].id == id && forall|m: int| 0 <= m < j ==> q[m].id != id);
    }
}

/// Marking changes only the status of one entry: length and every id,
/// name, duration and submitter stay the same.
pub proof fn law_mark_keeps_entries(q: Seq<QueueItemView>, id: u128, s: QueueItemStatus)
    ensures
        mark_spec(q, id, s).len() == q.len(),
        forall|i: int|
            0 <= i < q.len() ==> {
                let e = #[trigger] mark_spec(q, id, s)[i];
                &&& e.id == q[i].id
                &&& e.file_name == q[i].file_name
                &&& e.duration_secs_bits == q[i].duration_secs_bits
                &&& e.added_by == q[i].added_by
            },
{
}

/// Advancing marks exactly the previous current entry `Played` and moves
/// the index one place on.
pub proof fn law_advance_marks_previous_played(q: Seq<QueueItemView>, ci: usize)
    requires
        ci < q.len(),
        ci + 1 <= usize::MAX,
    ensures
        advance_spec(q, Some(ci)).1 == ci + 1,
        advance_spec(q, Some(ci)).0[ci as int].status == QueueItemStatus::Played,
        forall|i: int|
            0 <= i < q.len() && i != ci ==> #[trigger] advance_spec(q, Some(ci)).0[i] == q[i],
{
}

} // verus!
