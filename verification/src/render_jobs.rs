//! The bookkeeping of background rendering (formulas, diagrams, images):
//! which results are ready or pending, which jobs wait, how many run, and
//! which finished jobs still count after the cache was cleared.
use vstd::prelude::*;

use crate::text::str_eq;

verus! {

broadcast use vstd::string::group_string_axioms;

/// Most render jobs that run at the same time.
pub const MAX_ACTIVE_RENDER_JOBS: usize = 2;

/// What a render is for, as the texts that tell renders apart (such as the
/// mode, the zoom and the formula).
pub struct RenderKey {
    pub parts: Vec<String>,
}

/// The key as character sequences.
pub open spec fn key_view(key: RenderKey) -> Seq<Seq<char>> {
    key.parts@.map_values(|p: String| p@)
}

/// A render that was asked for: still running or queued, or finished.
pub enum RenderState<R> {
    Pending,
    Ready(R),
}

/// A render to run, for the cache generation it was asked in.
pub struct RenderJob {
    pub generation: u64,
    pub key: RenderKey,
}

/// A job as its generation and its key.
pub open spec fn job_view(job: RenderJob) -> (u64, Seq<Seq<char>>) {
    (job.generation, key_view(job.key))
}

/// The model of the queue: the entries by key, the waiting jobs in order,
/// the number of running jobs and the generation.
pub struct RenderQueueV<R> {
    pub entries: Seq<(Seq<Seq<char>>, RenderState<R>)>,
    pub queued: Seq<(u64, Seq<Seq<char>>)>,
    pub active: nat,
    pub generation: u64,
}

/// The results of renders by key, with the jobs still to run.
pub struct RenderJobQueue<R> {
    entries: Vec<(RenderKey, RenderState<R>)>,
    queued_jobs: Vec<RenderJob>,
    active_job_count: usize,
    generation: u64,
}

impl<R> View for RenderJobQueue<R> {
    type V = RenderQueueV<R>;

    closed spec fn view(&self) -> RenderQueueV<R> {
        RenderQueueV {
            entries: self.entries@.map_values(|e: (RenderKey, RenderState<R>)| (key_view(e.0), e.1)),
            queued: self.queued_jobs@.map_values(|j: RenderJob| job_view(j)),
            active: self.active_job_count as nat,
            generation: self.generation,
        }
    }
}

/// `q` holds nothing: no entry, no waiting job and no running job.
pub open spec fn queue_empty<R>(q: RenderQueueV<R>) -> bool {
    &&& q.entries.len() == 0
    &&& q.queued.len() == 0
    &&& q.active == 0
}

/// `after` is `before` cleared: empty, in the next generation.
pub open spec fn queue_cleared<R>(before: RenderQueueV<R>, after: RenderQueueV<R>) -> bool {
    &&& queue_empty(after)
    &&& after.generation == vstd::wrapping::u64_specs::wrapping_add(before.generation, 1)
}

/// The position of the entry for `key`, if there is one.
pub open spec fn entry_index<R>(entries: Seq<(Seq<Seq<char>>, RenderState<R>)>, key: Seq<Seq<char>>) -> Option<int> {
    if exists|i: int| 0 <= i < entries.len() && (#[trigger] entries[i]).0 == key {
        Some(choose|i: int| 0 <= i < entries.len() && (#[trigger] entries[i]).0 == key)
    } else {
        None
    }
}

/// What the queue holds for `key`.
pub open spec fn state_of<R>(q: RenderQueueV<R>, key: Seq<Seq<char>>) -> Option<RenderState<R>> {
    match entry_index(q.entries, key) {
        Some(i) => Some(q.entries[i].1),
        None => None,
    }
}

/// A well-formed queue: one entry per key, no more running jobs than
/// allowed, and only jobs of the current generation waiting.
pub open spec fn queue_wf<R>(q: RenderQueueV<R>) -> bool {
    &&& q.active <= MAX_ACTIVE_RENDER_JOBS
    &&& forall|i: int| 0 <= i < q.queued.len() ==> (#[trigger] q.queued[i]).0 == q.generation
    &&& forall|i: int, j: int|
        0 <= i < j < q.entries.len() ==> (#[trigger] q.entries[i]).0 != (#[trigger] q.entries[j]).0
}

/// How many waiting jobs start now: as many as there are free slots.
pub open spec fn started_count<R>(q: RenderQueueV<R>) -> nat {
    let free = (MAX_ACTIVE_RENDER_JOBS - q.active) as nat;
    if q.queued.len() < free {
        q.queued.len()
    } else {
        free
    }
}

/// The queue after starting waiting jobs into the free slots, oldest first.
pub open spec fn after_start<R>(q: RenderQueueV<R>) -> RenderQueueV<R> {
    RenderQueueV {
        queued: q.queued.skip(started_count(q) as int),
        active: q.active + started_count(q),
        ..q
    }
}

/// The entries with `state` for `key`: in place of its entry, or added at
/// the end.
pub open spec fn set_entry<R>(
    entries: Seq<(Seq<Seq<char>>, RenderState<R>)>,
    key: Seq<Seq<char>>,
    state: RenderState<R>,
) -> Seq<(Seq<Seq<char>>, RenderState<R>)> {
    match entry_index(entries, key) {
        Some(i) => entries.update(i, (key, state)),
        None => entries.push((key, state)),
    }
}

/// The queue after a render of `key` was asked for: waiting jobs start into
/// free slots; a key without an entry gets a pending entry and a job, which
/// starts at once if a slot is free.
pub open spec fn after_request<R>(q: RenderQueueV<R>, key: Seq<Seq<char>>) -> RenderQueueV<R> {
    let s = after_start(q);
    if state_of(s, key) is Some {
        s
    } else {
        after_start(
            RenderQueueV {
                entries: s.entries.push((key, RenderState::Pending)),
                queued: s.queued.push((s.generation, key)),
                ..s
            },
        )
    }
}

/// The queue after a job of the current generation finished with `result`:
/// one job fewer runs and the result is kept for its key.
pub open spec fn after_finish<R>(q: RenderQueueV<R>, key: Seq<Seq<char>>, result: R) -> RenderQueueV<R> {
    RenderQueueV {
        entries: set_entry(q.entries, key, RenderState::Ready(result)),
        active: if q.active > 0 {
            (q.active - 1) as nat
        } else {
            0
        },
        ..q
    }
}

/// The position of the entry for `key`, when there is one, is that entry.
pub proof fn lemma_entry_index<R>(entries: Seq<(Seq<Seq<char>>, RenderState<R>)>, key: Seq<Seq<char>>)
    ensures
        match entry_index(entries, key) {
            Some(i) => 0 <= i < entries.len() && entries[i].0 == key,
            None => forall|i: int| 0 <= i < entries.len() ==> (#[trigger] entries[i]).0 != key,
        },
{
}

proof fn lemma_set_entry_wf<R>(
    entries: Seq<(Seq<Seq<char>>, RenderState<R>)>,
    key: Seq<Seq<char>>,
    state: RenderState<R>,
)
    requires
        forall|a: int, b: int|
            0 <= a < b < entries.len() ==> (#[trigger] entries[a]).0 != (#[trigger] entries[b]).0,
    ensures
        ({
            let e = set_entry(entries, key, state);
            &&& forall|a: int, b: int|
                0 <= a < b < e.len() ==> (#[trigger] e[a]).0 != (#[trigger] e[b]).0
            &&& entry_index(e, key) is Some
            &&& e[entry_index(e, key)->0].1 == state
        }),
{
    lemma_entry_index(entries, key);
    let e = set_entry(entries, key, state);
    match entry_index(entries, key) {
        Some(i) => {
            assert forall|a: int, b: int| 0 <= a < b < e.len() implies (#[trigger] e[a]).0 != (
            #[trigger] e[b]).0 by {
                assert(e[a].0 == entries[a].0);
                assert(e[b].0 == entries[b].0);
            }
            lemma_entry_index_unique(e, key, i);
        },
        None => {
            assert forall|a: int, b: int| 0 <= a < b < e.len() implies (#[trigger] e[a]).0 != (
            #[trigger] e[b]).0 by {
                if b == entries.len() {
                    assert(e[a] == entries[a]);
                } else {
                    assert(e[a] == entries[a] && e[b] == entries[b]);
                }
            }
            lemma_entry_index_unique(e, key, entries.len() as int);
        },
    }
}

fn keys_equal(a: &RenderKey, b: &RenderKey) -> (r: bool)
    ensures
        r == (key_view(*a) == key_view(*b)),
{
    if a.parts.len() != b.parts.len() {
        return false;
    }
    let mut i: usize = 0;
    while i < a.parts.len()
        invariant
            a.parts@.len() == b.parts@.len(),
            i <= a.parts@.len(),
            forall|k: int| 0 <= k < i ==> (#[trigger] a.parts@[k])@ == b.parts@[k]@,
        decreases a.parts.len() - i,
    {
        if !str_eq(a.parts[i].as_str(), b.parts[i].as_str()) {
            assert(key_view(*a)[i as int] != key_view(*b)[i as int]);
            return false;
        }
        i = i + 1;
    }
    assert(key_view(*a) =~= key_view(*b));
    true
}

fn copy_key(key: &RenderKey) -> (r: RenderKey)
    ensures
        key_view(r) == key_view(*key),
{
    let mut parts: Vec<String> = Vec::new();
    let mut i: usize = 0;
    while i < key.parts.len()
        invariant
            i <= key.parts@.len(),
            parts@.len() == i,
            forall|k: int| 0 <= k < i ==> (#[trigger] parts@[k])@ == key.parts@[k]@,
        decreases key.parts.len() - i,
    {
        parts.push(crate::text::to_owned_string(key.parts[i].as_str()));
        i = i + 1;
    }
    let r = RenderKey { parts };
    assert(key_view(r) =~= key_view(*key));
    r
}

impl<R> RenderJobQueue<R> {
    /// An empty queue in generation 0.
    pub fn new() -> (r: Self)
        ensures
            r@.entries.len() == 0,
            r@.queued.len() == 0,
            r@.active == 0,
            r@.generation == 0,
            queue_wf(r@),
    {
        let r = RenderJobQueue {
            entries: Vec::new(),
            queued_jobs: Vec::new(),
            active_job_count: 0,
            generation: 0,
        };
        assert(r@.entries =~= Seq::<(Seq<Seq<char>>, RenderState<R>)>::empty());
        assert(r@.queued =~= Seq::<(u64, Seq<Seq<char>>)>::empty());
        r
    }

    /// The number of running jobs.
    pub fn active_job_count(&self) -> (r: usize)
        ensures
            r == self@.active,
    {
        self.active_job_count
    }

    /// The number of waiting jobs.
    pub fn queued_job_count(&self) -> (r: usize)
        ensures
            r == self@.queued.len(),
    {
        self.queued_jobs.len()
    }

    /// The current generation.
    pub fn generation(&self) -> (r: u64)
        ensures
            r == self@.generation,
    {
        self.generation
    }

    fn find(&self, key: &RenderKey) -> (r: Option<usize>)
        ensures
            match r {
                Some(i) => i < self@.entries.len() && self@.entries[i as int].0 == key_view(*key),
                None => entry_index(self@.entries, key_view(*key)) is None,
            },
    {
        let ghost es = self@.entries;
        let mut i: usize = 0;
        while i < self.entries.len()
            invariant
                es == self@.entries,
                es.len() == self.entries@.len(),
                i <= es.len(),
                forall|k: int| 0 <= k < i ==> (#[trigger] es[k]).0 != key_view(*key),
            decreases self.entries.len() - i,
        {
            assert(es[i as int].0 == key_view(self.entries@[i as int].0));
            if keys_equal(&self.entries[i].0, key) {
                return Some(i);
            }
            i = i + 1;
        }
        None
    }

    /// What the queue holds for `key`: nothing, a pending render or a
    /// result.
    pub fn state(&self, key: &RenderKey) -> (r: Option<&RenderState<R>>)
        requires
            queue_wf(self@),
        ensures
            match r {
                Some(s) => state_of(self@, key_view(*key)) == Some(*s),
                None => state_of(self@, key_view(*key)) is None,
            },
    {
        match self.find(key) {
            Some(i) => {
                proof {
                    lemma_entry_index_unique(self@.entries, key_view(*key), i as int);
                }
                assert(self@.entries[i as int].1 == self.entries@[i as int].1);
                Some(&self.entries[i].1)
            },
            None => None,
        }
    }

    /// Starts waiting jobs while fewer than `MAX_ACTIVE_RENDER_JOBS` run,
    /// oldest first, and gives them to be run.
    pub fn start_queued_jobs(&mut self) -> (started: Vec<RenderJob>)
        requires
            queue_wf(old(self)@),
        ensures
            queue_wf(final(self)@),
            final(self)@ == after_start(old(self)@),
            started@.map_values(|j: RenderJob| job_view(j)) == old(self)@.queued.take(
                started_count(old(self)@) as int,
            ),
    {
        let ghost q0 = self@;
        let mut started: Vec<RenderJob> = Vec::new();
        assert(q0.queued.skip(0) =~= q0.queued);
        while self.active_job_count < MAX_ACTIVE_RENDER_JOBS && self.queued_jobs.len() > 0
            invariant
                q0.active <= self@.active <= MAX_ACTIVE_RENDER_JOBS,
                started@.len() == self@.active - q0.active,
                self@.entries == q0.entries,
                self@.generation == q0.generation,
                started@.len() <= q0.queued.len(),
                self@.queued == q0.queued.skip(started@.len() as int),
                started@.map_values(|j: RenderJob| job_view(j)) == q0.queued.take(
                    started@.len() as int,
                ),
                queue_wf(q0),
            decreases self.queued_jobs.len(),
        {
            let ghost qb = self@.queued;
            let ghost sb = started@.map_values(|j: RenderJob| job_view(j));
            let ghost n: int = started@.len() as int;
            let job = self.queued_jobs.remove(0);
            assert(job_view(job) == qb[0]);
            self.active_job_count = self.active_job_count + 1;
            started.push(job);
            assert(self@.queued =~= qb.drop_first());
            assert(qb.drop_first() =~= q0.queued.skip(n + 1));
            assert(started@.map_values(|j: RenderJob| job_view(j)) =~= sb.push(qb[0]));
            assert(qb[0] == q0.queued[n]);
            assert(q0.queued.take(n + 1) =~= q0.queued.take(n).push(q0.queued[n]));
            assert(started@.map_values(|j: RenderJob| job_view(j)) =~= q0.queued.take(
                started@.len() as int,
            ));
        }
        assert(started@.len() == started_count(q0));
        started
    }
    /// Asks for a render of `key`: starts waiting jobs into free slots and,
    /// when the key has no entry yet, adds a pending entry and a job for
    /// it. Gives the jobs that start now, all of the current generation.
    pub fn request(&mut self, key: RenderKey) -> (started: Vec<RenderJob>)
        requires
            queue_wf(old(self)@),
        ensures
            queue_wf(final(self)@),
            final(self)@ == after_request(old(self)@, key_view(key)),
            started@.len() == final(self)@.active - old(self)@.active,
            forall|i: int| 0 <= i < started@.len() ==> (#[trigger] started@[i]).generation
                == old(self)@.generation,
    {
        let ghost q0 = self@;
        let mut started = self.start_queued_jobs();
        let ghost q1 = self@;
        proof {
            let sv = started@.map_values(|j: RenderJob| job_view(j));
            assert(started_count(q0) <= q0.queued.len());
            assert(sv.len() == started_count(q0));
            assert forall|i: int| 0 <= i < started@.len() implies (#[trigger] started@[i]).generation
                == q0.generation by {
                assert(sv[i] == job_view(started@[i]));
                assert(sv[i] == q0.queued.take(started_count(q0) as int)[i]);
                assert(q0.queued[i].0 == q0.generation);
            }
        }
        if let Some(_) = self.find(&key) {
            proof {
                lemma_entry_index_unique(q1.entries, key_view(key), entry_index(q1.entries, key_view(key))->0);
            }
            return started;
        }
        let ghost kv = key_view(key);
        let job_key = copy_key(&key);
        self.entries.push((key, RenderState::Pending));
        self.queued_jobs.push(RenderJob { generation: self.generation, key: job_key });
        let ghost q2 = self@;
        assert(q2.entries =~= q1.entries.push((kv, RenderState::Pending)));
        assert(q2.queued =~= q1.queued.push((q1.generation, kv)));
        proof {
            lemma_entry_index(q1.entries, kv);
            assert forall|a: int, b: int| 0 <= a < b < q2.entries.len() implies (
            #[trigger] q2.entries[a]).0 != (#[trigger] q2.entries[b]).0 by {
                if b == q1.entries.len() {
                    assert(q2.entries[a] == q1.entries[a]);
                } else {
                    assert(q2.entries[a] == q1.entries[a] && q2.entries[b] == q1.entries[b]);
                }
            }
        }
        let more = self.start_queued_jobs();
        proof {
            let mv = more@.map_values(|j: RenderJob| job_view(j));
            assert(started_count(q2) <= q2.queued.len());
            assert(mv.len() == started_count(q2));
            assert forall|k: int| 0 <= k < more@.len() implies (#[trigger] more@[k]).generation
                == q0.generation by {
                assert(mv[k] == job_view(more@[k]));
                assert(mv[k] == q2.queued.take(started_count(q2) as int)[k]);
                assert(q2.queued[k].0 == q2.generation);
            }
        }
        let ghost first = started@;
        let mut i: usize = 0;
        let n = more.len();
        let mut more = more;
        let ghost more_view = more@;
        while more.len() > 0
            invariant
                started@.len() + more@.len() == first.len() + more_view.len(),
                forall|k: int| 0 <= k < started@.len() ==> (#[trigger] started@[k]).generation
                    == q0.generation,
                forall|k: int| 0 <= k < more@.len() ==> (#[trigger] more@[k]).generation
                    == q0.generation,
            decreases more.len(),
        {
            let job = more.remove(0);
            started.push(job);
        }
        started
    }

    /// Takes in a finished job of generation `generation`: a job of the
    /// current generation stops running and its result is kept for its
    /// key; a job from before the last `clear` changes nothing.
    pub fn finish(&mut self, generation: u64, key: RenderKey, result: R) -> (accepted: bool)
        requires
            queue_wf(old(self)@),
        ensures
            queue_wf(final(self)@),
            accepted == (generation == old(self)@.generation),
            accepted ==> final(self)@ == after_finish(old(self)@, key_view(key), result),
            !accepted ==> final(self)@ == old(self)@,
    {
        if generation != self.generation {
            return false;
        }
        let ghost q0 = self@;
        let ghost kv = key_view(key);
        proof {
            lemma_entry_index(q0.entries, kv);
            lemma_set_entry_wf(q0.entries, kv, RenderState::Ready(result));
        }
        self.active_job_count = if self.active_job_count > 0 {
            self.active_job_count - 1
        } else {
            0
        };
        match self.find(&key) {
            Some(i) => {
                proof {
                    lemma_entry_index_unique(q0.entries, kv, i as int);
                }
                self.entries.set(i, (key, RenderState::Ready(result)));
                assert(self@.entries =~= q0.entries.update(i as int, (kv, RenderState::Ready(result))));
                assert(self@.entries == set_entry(q0.entries, kv, RenderState::Ready(result)));
                assert(self@.queued == q0.queued);
            },
            None => {
                self.entries.push((key, RenderState::Ready(result)));
                assert(self@.entries =~= q0.entries.push((kv, RenderState::Ready(result))));
                assert(self@.entries == set_entry(q0.entries, kv, RenderState::Ready(result)));
                assert(self@.queued == q0.queued);
            },
        }
        true
    }

    /// Forgets every entry and waiting job and starts a new generation, so
    /// that results of jobs still running are ignored.
    pub fn clear(&mut self)
        ensures
            queue_wf(final(self)@),
            queue_cleared(old(self)@, final(self)@),
    {
        self.entries.clear();
        self.queued_jobs.clear();
        self.active_job_count = 0;
        self.generation = self.generation.wrapping_add(1);
        assert(self@.entries =~= Seq::<(Seq<Seq<char>>, RenderState<R>)>::empty());
        assert(self@.queued =~= Seq::<(u64, Seq<Seq<char>>)>::empty());
    }
}

proof fn lemma_entry_index_unique<R>(
    entries: Seq<(Seq<Seq<char>>, RenderState<R>)>,
    key: Seq<Seq<char>>,
    i: int,
)
    requires
        0 <= i < entries.len(),
        entries[i].0 == key,
        forall|a: int, b: int|
            0 <= a < b < entries.len() ==> (#[trigger] entries[a]).0 != (#[trigger] entries[b]).0,
    ensures
        entry_index(entries, key) == Some(i),
{
    let k = choose|k: int| 0 <= k < entries.len() && (#[trigger] entries[k]).0 == key;
    if k != i {
        if k < i {
            assert(entries[k].0 != entries[i].0);
        } else {
            assert(entries[i].0 != entries[k].0);
        }
    }
}

/// Asking again for a render that was already asked for starts no second
/// render of it: after a request the key has an entry, and a repeated
/// request leaves the entries as they are.
pub proof fn law_request_renders_once<R>(q: RenderQueueV<R>, key: Seq<Seq<char>>)
    requires
        queue_wf(q),
    ensures
        state_of(after_request(q, key), key) is Some,
        after_request(after_request(q, key), key).entries == after_request(q, key).entries,
{
    let s = after_start(q);
    if state_of(s, key) is None {
        let e = s.entries.push((key, RenderState::<R>::Pending));
        assert(e[s.entries.len() as int].0 == key);
        assert(entry_index(e, key) is Some);
    }
}

/// A job of the current generation that finishes leaves its result as
/// what the queue holds for its key.
pub proof fn law_finish_then_ready<R>(q: RenderQueueV<R>, key: Seq<Seq<char>>, result: R)
    requires
        queue_wf(q),
    ensures
        state_of(after_finish(q, key, result), key) == Some(RenderState::Ready(result)),
        queue_wf(after_finish(q, key, result)),
{
    lemma_set_entry_wf(q.entries, key, RenderState::Ready(result));
}

/// A clear forgets every result and refuses every job asked for before
/// it: what the queue holds for any key is nothing, and a job of the
/// generation before the clear is not of the generation after it, so that
/// `finish` turns it away.
pub proof fn law_clear_refuses_earlier_jobs<R>(
    before: RenderQueueV<R>,
    after: RenderQueueV<R>,
    job_generation: u64,
    key: Seq<Seq<char>>,
)
    requires
        queue_cleared(before, after),
        job_generation == before.generation,
    ensures
        job_generation != after.generation,
        state_of(after, key) is None,
{
}

} // verus!
