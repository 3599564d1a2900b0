//! Model of the shared coordination store: named keys, each holding either
//! a FIFO queue of opaque serialized payloads or a monotonic barrier
//! counter. The four primitive operations (append, pop-head, atomic
//! increment-and-read, atomic read, delete) are verified against per-key
//! transition functions, and the rendezvous laws (FIFO handoff, blocking
//! pop, barrier release, idempotent purge) are proved over those
//! transitions.
use vstd::prelude::*;

verus! {

/// One coordination key's concrete state.
pub enum Entry {
    Queue(Vec<Vec<u8>>),
    Counter(u64),
}

/// The mathematical model of one key's state.
pub enum EntryModel {
    Queue(Seq<Seq<u8>>),
    Counter(u64),
}

/// Errors a store operation can report. Using one key both as a queue and
/// as a counter is a protocol mismatch; a counter cannot grow past the
/// machine word.
#[derive(PartialEq, Eq, Structural, Clone, Copy, Debug)]
pub enum StoreError {
    KindMismatch,
    CounterOverflow,
}

/// The payload sequence a concrete queue holds.
pub open spec fn payloads_of(q: Vec<Vec<u8>>) -> Seq<Seq<u8>> {
    Seq::new(q@.len(), |i: int| q@[i]@)
}

pub open spec fn model_of(e: Entry) -> EntryModel {
    match e {
        Entry::Queue(q) => EntryModel::Queue(payloads_of(q)),
        Entry::Counter(c) => EntryModel::Counter(c),
    }
}

/// Appending to a key: an absent key becomes a one-element queue; a queue
/// grows at the tail; a counter key refuses the write.
pub open spec fn spec_publish(e: Option<EntryModel>, v: Seq<u8>) -> (Option<EntryModel>, bool) {
    match e {
        None => (Some(EntryModel::Queue(seq![v])), true),
        Some(EntryModel::Queue(q)) => (Some(EntryModel::Queue(q.push(v))), true),
        Some(EntryModel::Counter(c)) => (Some(EntryModel::Counter(c)), false),
    }
}

/// Popping the head of a key's queue: an absent or empty queue yields no
/// value (the caller suspends and retries); otherwise the oldest payload
/// leaves the queue. A counter key refuses the read.
pub open spec fn spec_consume(e: Option<EntryModel>) -> (Option<EntryModel>, Option<Seq<u8>>, bool) {
    match e {
        None => (None, None, true),
        Some(EntryModel::Queue(q)) => if q.len() == 0 {
            (Some(EntryModel::Queue(q)), None, true)
        } else {
            (Some(EntryModel::Queue(q.drop_first())), Some(q[0]), true)
        },
        Some(EntryModel::Counter(c)) => (Some(EntryModel::Counter(c)), None, false),
    }
}

/// Atomic increment-and-read: an absent key becomes a counter at 1; a
/// counter increments by exactly one; a queue key refuses the write.
pub open spec fn spec_announce(e: Option<EntryModel>) -> (Option<EntryModel>, u64, bool) {
    match e {
        None => (Some(EntryModel::Counter(1)), 1u64, true),
        Some(EntryModel::Counter(c)) => if c == u64::MAX {
            (Some(EntryModel::Counter(c)), 0u64, false)
        } else {
            (Some(EntryModel::Counter((c + 1) as u64)), (c + 1) as u64, true)
        },
        Some(EntryModel::Queue(q)) => (Some(EntryModel::Queue(q)), 0u64, false),
    }
}

/// Atomic read of a barrier counter: an absent key reads as zero.
pub open spec fn spec_read(e: Option<EntryModel>) -> (u64, bool) {
    match e {
        None => (0u64, true),
        Some(EntryModel::Counter(c)) => (c, true),
        Some(EntryModel::Queue(q)) => (0u64, false),
    }
}

/// Deleting a key: afterwards the key is absent, whatever it held before.
pub open spec fn spec_purge(e: Option<EntryModel>) -> Option<EntryModel> {
    None
}

/// The shared coordination store, as one process observes it: an
/// association of key identifiers to their states, with each key bound at
/// most once.
pub struct CoordStore {
    entries: Vec<(u64, Entry)>,
}

impl CoordStore {
    /// Internal validity: no key occurs twice.
    pub closed spec fn inv(self) -> bool {
        forall|i: int, j: int|
            0 <= i < j < self.entries@.len() ==> (#[trigger] self.entries@[i]).0 != (
            #[trigger] self.entries@[j]).0
    }

    pub closed spec fn contains_key(self, k: u64) -> bool {
        exists|i: int| 0 <= i < self.entries@.len() && (#[trigger] self.entries@[i]).0 == k
    }

    closed spec fn key_index(self, k: u64) -> int {
        choose|i: int| 0 <= i < self.entries@.len() && (#[trigger] self.entries@[i]).0 == k
    }

    /// The model of one key's state; `None` when the key is absent.
    pub closed spec fn entry_model(self, k: u64) -> Option<EntryModel> {
        if self.contains_key(k) {
            Some(model_of(self.entries@[self.key_index(k)].1))
        } else {
            None
        }
    }

    pub fn new() -> (s: CoordStore)
        ensures
            s.inv(),
            forall|k: u64| #[trigger] s.entry_model(k) == None::<EntryModel>,
    {
        let s = CoordStore { entries: Vec::new() };
        proof {
            assert forall|k: u64| #[trigger] s.entry_model(k) == None::<EntryModel> by {
                assert(!s.contains_key(k));
            }
        }
        s
    }

    /// Index of `k` in the backing vector, when present.
    fn find(&self, k: u64) -> (r: Option<usize>)
        ensures
            match r {
                Some(i) => i < self.entries@.len() && self.entries@[i as int].0 == k,
                None => !self.contains_key(k),
            },
    {
        let mut i: usize = 0;
        while i < self.entries.len()
            invariant
                i <= self.entries@.len(),
                forall|j: int| 0 <= j < i ==> (#[trigger] self.entries@[j]).0 != k,
            decreases self.entries@.len() - i,
        {
            if self.entries[i].0 == k {
                return Some(i);
            }
            i = i + 1;
        }
        proof {
            assert(!self.contains_key(k));
        }
        None
    }

    proof fn lemma_key_at(self, k: u64, i: int)
        requires
            self.inv(),
            0 <= i < self.entries@.len(),
            self.entries@[i].0 == k,
        ensures
            self.contains_key(k),
            self.key_index(k) == i,
    {
        assert(self.contains_key(k));
        let c = self.key_index(k);
        assert(0 <= c < self.entries@.len() && self.entries@[c].0 == k);
        if c < i {
            assert(self.entries@[c].0 != self.entries@[i].0);
            assert(false);
        }
        if i < c {
            assert(self.entries@[i].0 != self.entries@[c].0);
            assert(false);
        }
    }

    /// Replacing the entry at a key's index updates that key's model and
    /// leaves every other key's model unchanged.
    proof fn lemma_update_model(pre: CoordStore, post: CoordStore, i: int, k: u64, e: Entry)
        requires
            pre.inv(),
            0 <= i < pre.entries@.len(),
            pre.entries@[i].0 == k,
            post.entries@ == pre.entries@.update(i, (k, e)),
        ensures
            post.inv(),
            post.entry_model(k) == Some(model_of(e)),
            forall|k2: u64| k2 != k ==> post.entry_model(k2) == pre.entry_model(k2),
    {
        assert(forall|m: int|
            0 <= m < post.entries@.len() ==> (#[trigger] post.entries@[m]).0 == pre.entries@[m].0);
        assert(post.inv());
        post.lemma_key_at(k, i);
        assert forall|k2: u64| k2 != k implies post.entry_model(k2) == pre.entry_model(k2) by {
            if pre.contains_key(k2) {
                let j = pre.key_index(k2);
                pre.lemma_key_at(k2, j);
                assert(j != i);
                assert(post.entries@[j] == pre.entries@[j]);
                post.lemma_key_at(k2, j);
            } else {
                assert(!post.contains_key(k2)) by {
                    if post.contains_key(k2) {
                        let j = choose|j: int|
                            0 <= j < post.entries@.len() && (#[trigger] post.entries@[j]).0 == k2;
                        assert(pre.entries@[j].0 == k2);
                    }
                }
            }
        }
    }

    /// Appending a fresh key binds its model and leaves every other key's
    /// model unchanged.
    proof fn lemma_push_model(pre: CoordStore, post: CoordStore, k: u64, e: Entry)
        requires
            pre.inv(),
            !pre.contains_key(k),
            post.entries@ == pre.entries@.push((k, e)),
        ensures
            post.inv(),
            post.entry_model(k) == Some(model_of(e)),
            forall|k2: u64| k2 != k ==> post.entry_model(k2) == pre.entry_model(k2),
    {
        let n = pre.entries@.len() as int;
        assert(post.entries@[n].0 == k);
        assert(forall|m: int| 0 <= m < n ==> (#[trigger] post.entries@[m]) == pre.entries@[m]);
        assert forall|i: int, j: int|
            0 <= i < j < post.entries@.len() implies (#[trigger] post.entries@[i]).0 != (
        #[trigger] post.entries@[j]).0 by {
            if j < n {
                assert(pre.entries@[i].0 != pre.entries@[j].0);
            } else {
                assert(j == n);
                if post.entries@[i].0 == k {
                    assert(pre.entries@[i].0 == k);
                    assert(pre.contains_key(k));
                }
            }
        }
        post.lemma_key_at(k, n);
        assert forall|k2: u64| k2 != k implies post.entry_model(k2) == pre.entry_model(k2) by {
            if pre.contains_key(k2) {
                let j = pre.key_index(k2);
                pre.lemma_key_at(k2, j);
                post.lemma_key_at(k2, j);
            } else {
                assert(!post.contains_key(k2)) by {
                    if post.contains_key(k2) {
                        let j = choose|j: int|
                            0 <= j < post.entries@.len() && (#[trigger] post.entries@[j]).0 == k2;
                        assert(j == n || pre.entries@[j].0 == k2);
                    }
                }
            }
        }
    }

    /// Removing a key's entry erases its model and leaves every other
    /// key's model unchanged.
    proof fn lemma_remove_model(pre: CoordStore, post: CoordStore, i: int, k: u64)
        requires
            pre.inv(),
            0 <= i < pre.entries@.len(),
            pre.entries@[i].0 == k,
            post.entries@ == pre.entries@.remove(i),
        ensures
            post.inv(),
            post.entry_model(k) == None::<EntryModel>,
            forall|k2: u64| k2 != k ==> post.entry_model(k2) == pre.entry_model(k2),
    {
        let n = post.entries@.len() as int;
        assert(forall|m: int|
            0 <= m < i ==> (#[trigger] post.entries@[m]) == pre.entries@[m]);
        assert(forall|m: int|
            i <= m < n ==> (#[trigger] post.entries@[m]) == pre.entries@[m + 1]);
        assert forall|p: int, q: int|
            0 <= p < q < n implies (#[trigger] post.entries@[p]).0 != (
        #[trigger] post.entries@[q]).0 by {
            let p0: int = if p < i { p } else { p + 1 };
            let q0: int = if q < i { q } else { q + 1 };
            assert(pre.entries@[p0].0 != pre.entries@[q0].0);
        }
        assert(!post.contains_key(k)) by {
            if post.contains_key(k) {
                let j = choose|j: int|
                    0 <= j < post.entries@.len() && (#[trigger] post.entries@[j]).0 == k;
                let j0: int = if j < i { j } else { j + 1 };
                assert(pre.entries@[j0].0 == k);
                assert(j0 != i);
                if j0 < i {
                    assert(pre.entries@[j0].0 != pre.entries@[i].0);
                } else {
                    assert(pre.entries@[i].0 != pre.entries@[j0].0);
                }
            }
        }
        assert forall|k2: u64| k2 != k implies post.entry_model(k2) == pre.entry_model(k2) by {
            if pre.contains_key(k2) {
                let j = pre.key_index(k2);
                pre.lemma_key_at(k2, j);
                assert(j != i);
                if j < i {
                    assert(post.entries@[j] == pre.entries@[j]);
                    post.lemma_key_at(k2, j);
                } else {
                    assert(post.entries@[j - 1] == pre.entries@[j]);
                    post.lemma_key_at(k2, j - 1);
                }
            } else {
                assert(!post.contains_key(k2)) by {
                    if post.contains_key(k2) {
                        let j = choose|j: int|
                            0 <= j < post.entries@.len() && (#[trigger] post.entries@[j]).0 == k2;
                        let j0: int = if j < i { j } else { j + 1 };
                        assert(pre.entries@[j0].0 == k2);
                    }
                }
            }
        }
    }

    /// Append a serialized payload at the tail of the named queue,
    /// creating the queue if the key is absent.
    pub fn publish(&mut self, key: u64, value: Vec<u8>) -> (r: Result<(), StoreError>)
        requires
            old(self).inv(),
        ensures
            final(self).inv(),
            ({
                let (e2, ok) = spec_publish(old(self).entry_model(key), value@);
                &&& final(self).entry_model(key) == e2
                &&& r is Ok == ok
            }),
            r is Err ==> r == Err::<(), StoreError>(StoreError::KindMismatch),
            forall|k2: u64| k2 != key ==> final(self).entry_model(k2) == old(self).entry_model(k2),
    {
        let ghost pre = *self;
        match self.find(key) {
            None => {
                let mut q: Vec<Vec<u8>> = Vec::new();
                q.push(value);
                self.entries.push((key, Entry::Queue(q)));
                proof {
                    CoordStore::lemma_push_model(pre, *self, key, self.entries@.last().1);
                    assert(self.entries@.last().1 matches Entry::Queue(qq) && payloads_of(qq)
                        =~= seq![value@]);
                }
                Ok(())
            },
            Some(i) => {
                proof {
                    pre.lemma_key_at(key, i as int);
                }
                let (k0, e) = self.entries.remove(i);
                match e {
                    Entry::Queue(mut q) => {
                        let ghost q_old = payloads_of(q);
                        q.push(value);
                        proof {
                            assert(payloads_of(q) =~= q_old.push(value@));
                        }
                        self.entries.insert(i, (k0, Entry::Queue(q)));
                        proof {
                            assert(self.entries@ =~= pre.entries@.update(
                                i as int,
                                self.entries@[i as int],
                            ));
                            CoordStore::lemma_update_model(
                                pre,
                                *self,
                                i as int,
                                key,
                                self.entries@[i as int].1,
                            );
                        }
                        Ok(())
                    },
                    Entry::Counter(c) => {
                        self.entries.insert(i, (k0, Entry::Counter(c)));
                        proof {
                            assert(self.entries@ =~= pre.entries@.update(
                                i as int,
                                self.entries@[i as int],
                            ));
                            CoordStore::lemma_update_model(
                                pre,
                                *self,
                                i as int,
                                key,
                                self.entries@[i as int].1,
                            );
                        }
                        Err(StoreError::KindMismatch)
                    },
                }
            },
        }
    }

    /// Pop the head of the named queue, or report that no payload is
    /// available yet (the caller suspends and retries after a publish).
    pub fn try_consume(&mut self, key: u64) -> (r: Result<Option<Vec<u8>>, StoreError>)
        requires
            old(self).inv(),
        ensures
            final(self).inv(),
            ({
                let (e2, res, ok) = spec_consume(old(self).entry_model(key));
                &&& final(self).entry_model(key) == e2
                &&& match r {
                    Ok(Some(v)) => ok && res == Some(v@),
                    Ok(None) => ok && res is None,
                    Err(err) => !ok && err == StoreError::KindMismatch,
                }
            }),
            forall|k2: u64| k2 != key ==> final(self).entry_model(k2) == old(self).entry_model(k2),
    {
        let ghost pre = *self;
        match self.find(key) {
            None => Ok(None),
            Some(i) => {
                proof {
                    pre.lemma_key_at(key, i as int);
                }
                let (k0, e) = self.entries.remove(i);
                match e {
                    Entry::Queue(mut q) => {
                        let ghost q_old = payloads_of(q);
                        if q.len() == 0 {
                            self.entries.insert(i, (k0, Entry::Queue(q)));
                            proof {
                                assert(payloads_of(q) =~= q_old);
                                assert(self.entries@ =~= pre.entries@.update(
                                    i as int,
                                    self.entries@[i as int],
                                ));
                                CoordStore::lemma_update_model(
                                    pre,
                                    *self,
                                    i as int,
                                    key,
                                    self.entries@[i as int].1,
                                );
                            }
                            Ok(None)
                        } else {
                            let head = q.remove(0);
                            proof {
                                assert(payloads_of(q) =~= q_old.drop_first());
                                assert(head@ == q_old[0]);
                            }
                            self.entries.insert(i, (k0, Entry::Queue(q)));
                            proof {
                                assert(self.entries@ =~= pre.entries@.update(
                                    i as int,
                                    self.entries@[i as int],
                                ));
                                CoordStore::lemma_update_model(
                                    pre,
                                    *self,
                                    i as int,
                                    key,
                                    self.entries@[i as int].1,
                                );
                            }
                            Ok(Some(head))
                        }
                    },
                    Entry::Counter(c) => {
                        self.entries.insert(i, (k0, Entry::Counter(c)));
                        proof {
                            assert(self.entries@ =~= pre.entries@.update(
                                i as int,
                                self.entries@[i as int],
                            ));
                            CoordStore::lemma_update_model(
                                pre,
                                *self,
                                i as int,
                                key,
                                self.entries@[i as int].1,
                            );
                        }
                        Err(StoreError::KindMismatch)
                    },
                }
            },
        }
    }

    /// Atomically increment the named barrier counter by one and return
    /// the post-increment value, creating the counter at one if absent.
    pub fn announce(&mut self, key: u64) -> (r: Result<u64, StoreError>)
        requires
            old(self).inv(),
        ensures
            final(self).inv(),
            ({
                let (e2, c, ok) = spec_announce(old(self).entry_model(key));
                &&& final(self).entry_model(key) == e2
                &&& match r {
                    Ok(v) => ok && v == c,
                    Err(err) => !ok && (err == StoreError::CounterOverflow <==> old(
                        self,
                    ).entry_model(key) == Some(EntryModel::Counter(u64::MAX))),
                }
            }),
            r is Err ==> final(self).entry_model(key) == old(self).entry_model(key),
            forall|k2: u64| k2 != key ==> final(self).entry_model(k2) == old(self).entry_model(k2),
    {
        let ghost pre = *self;
        match self.find(key) {
            None => {
                self.entries.push((key, Entry::Counter(1)));
                proof {
                    CoordStore::lemma_push_model(pre, *self, key, self.entries@.last().1);
                }
                Ok(1)
            },
            Some(i) => {
                proof {
                    pre.lemma_key_at(key, i as int);
                }
                let (k0, e) = self.entries.remove(i);
                match e {
                    Entry::Counter(c) => {
                        if c == u64::MAX {
                            self.entries.insert(i, (k0, Entry::Counter(c)));
                            proof {
                                assert(self.entries@ =~= pre.entries@.update(
                                    i as int,
                                    self.entries@[i as int],
                                ));
                                CoordStore::lemma_update_model(
                                    pre,
                                    *self,
                                    i as int,
                                    key,
                                    self.entries@[i as int].1,
                                );
                            }
                            Err(StoreError::CounterOverflow)
                        } else {
                            self.entries.insert(i, (k0, Entry::Counter(c + 1)));
                            proof {
                                assert(self.entries@ =~= pre.entries@.update(
                                    i as int,
                                    self.entries@[i as int],
                                ));
                                CoordStore::lemma_update_model(
                                    pre,
                                    *self,
                                    i as int,
                                    key,
                                    self.entries@[i as int].1,
                                );
                            }
                            Ok(c + 1)
                        }
                    },
                    Entry::Queue(q) => {
                        self.entries.insert(i, (k0, Entry::Queue(q)));
                        proof {
                            assert(self.entries@ =~= pre.entries@.update(
                                i as int,
                                self.entries@[i as int],
                            ));
                            assert(model_of(self.entries@[i as int].1) == model_of(
                                pre.entries@[i as int].1,
                            ));
                            CoordStore::lemma_update_model(
                                pre,
                                *self,
                                i as int,
                                key,
                                self.entries@[i as int].1,
                            );
                        }
                        Err(StoreError::KindMismatch)
                    },
                }
            },
        }
    }

    /// Atomically read the named barrier counter; an absent counter reads
    /// as zero.
    pub fn read_counter(&self, key: u64) -> (r: Result<u64, StoreError>)
        requires
            self.inv(),
        ensures
            ({
                let (c, ok) = spec_read(self.entry_model(key));
                match r {
                    Ok(v) => ok && v == c,
                    Err(err) => !ok && err == StoreError::KindMismatch,
                }
            }),
    {
        match self.find(key) {
            None => Ok(0),
            Some(i) => {
                proof {
                    self.lemma_key_at(key, i as int);
                }
                match &self.entries[i].1 {
                    Entry::Counter(c) => Ok(*c),
                    Entry::Queue(_) => Err(StoreError::KindMismatch),
                }
            },
        }
    }

    /// Delete the named key's state entirely; deleting an absent key is a
    /// no-op success.
    pub fn purge(&mut self, key: u64)
        requires
            old(self).inv(),
        ensures
            final(self).inv(),
            final(self).entry_model(key) == spec_purge(old(self).entry_model(key)),
            forall|k2: u64| k2 != key ==> final(self).entry_model(k2) == old(self).entry_model(k2),
    {
        let ghost pre = *self;
        match self.find(key) {
            None => {
                proof {
                    assert(pre.entry_model(key) == None::<EntryModel>);
                }
            },
            Some(i) => {
                proof {
                    pre.lemma_key_at(key, i as int);
                }
                let _ = self.entries.remove(i);
                proof {
                    CoordStore::lemma_remove_model(pre, *self, i as int, key);
                }
            },
        }
    }
}

/// A key state that holds no counter: absent, or a queue.
pub open spec fn is_queue_state(e: Option<EntryModel>) -> bool {
    e is None || e matches Some(EntryModel::Queue(_))
}

/// The payloads a key state holds, oldest first.
pub open spec fn queue_contents(e: Option<EntryModel>) -> Seq<Seq<u8>> {
    match e {
        Some(EntryModel::Queue(q)) => q,
        _ => Seq::empty(),
    }
}

/// The key state reached after publishing each element of `vs`, in order.
pub open spec fn publish_all(e: Option<EntryModel>, vs: Seq<Seq<u8>>) -> Option<EntryModel>
    decreases vs.len(),
{
    if vs.len() == 0 {
        e
    } else {
        publish_all(spec_publish(e, vs[0]).0, vs.drop_first())
    }
}

/// The key state reached after `n` consume calls.
pub open spec fn consume_n(e: Option<EntryModel>, n: nat) -> Option<EntryModel>
    decreases n,
{
    if n == 0 {
        e
    } else {
        consume_n(spec_consume(e).0, (n - 1) as nat)
    }
}

/// Publishing appends: after publishing `vs` in order, the queue holds its
/// old contents followed by `vs`, and every publish succeeded.
pub proof fn lemma_publish_all(e: Option<EntryModel>, vs: Seq<Seq<u8>>)
    requires
        is_queue_state(e),
    ensures
        is_queue_state(publish_all(e, vs)),
        queue_contents(publish_all(e, vs)) == queue_contents(e) + vs,
    decreases vs.len(),
{
    if vs.len() == 0 {
        assert(queue_contents(e) + vs =~= queue_contents(e));
    } else {
        let e1 = spec_publish(e, vs[0]).0;
        assert(queue_contents(e1) =~= queue_contents(e).push(vs[0]));
        lemma_publish_all(e1, vs.drop_first());
        assert(queue_contents(e).push(vs[0]) + vs.drop_first() =~= queue_contents(e) + vs);
    }
}

/// Consuming drops from the front: after `n` consume calls on a queue
/// holding at least `n` payloads, the first `n` are gone and the rest
/// stand in their old order.
pub proof fn lemma_consume_n(e: Option<EntryModel>, n: nat)
    requires
        is_queue_state(e),
        n <= queue_contents(e).len(),
    ensures
        is_queue_state(consume_n(e, n)),
        queue_contents(consume_n(e, n)) == queue_contents(e).skip(n as int),
    decreases n,
{
    if n == 0 {
        assert(queue_contents(e).skip(0) =~= queue_contents(e));
    } else {
        let e1 = spec_consume(e).0;
        assert(queue_contents(e1) =~= queue_contents(e).drop_first());
        lemma_consume_n(e1, (n - 1) as nat);
        assert(queue_contents(e).drop_first().skip(n - 1) =~= queue_contents(e).skip(n as int));
    }
}

/// FIFO handoff law: for payloads `vs` published on one key, in the
/// store's completion order for that key, a single consumer popping
/// repeatedly receives exactly `vs`, in order: its `j`-th pop (counting
/// from zero) returns `vs[j]`.
pub proof fn lemma_queue_fifo(vs: Seq<Seq<u8>>, j: int)
    requires
        0 <= j < vs.len(),
    ensures
        spec_consume(consume_n(publish_all(None, vs), j as nat)).1 == Some(vs[j]),
        spec_consume(consume_n(publish_all(None, vs), j as nat)).2,
    decreases j,
{
    lemma_publish_all(None, vs);
    let e = publish_all(None, vs);
    assert(queue_contents(e) =~= vs);
    lemma_consume_n(e, j as nat);
    let ej = consume_n(e, j as nat);
    assert(queue_contents(ej) == vs.skip(j));
    assert(queue_contents(ej).len() > 0);
    assert(queue_contents(ej)[0] == vs[j]);
}

/// Blocking-pop law: a consume on an empty (or never-written) queue
/// yields no value and changes nothing — the caller suspends rather than
/// observing a spurious result — and after one publish the retrying
/// consumer receives exactly the published value, leaving the queue
/// empty again.
pub proof fn lemma_blocking_pop(e: Option<EntryModel>, v: Seq<u8>)
    requires
        is_queue_state(e),
        queue_contents(e).len() == 0,
    ensures
        spec_consume(e).1 is None,
        spec_consume(e).2,
        spec_consume(e).0 == e,
        spec_consume(spec_publish(e, v).0).1 == Some(v),
        queue_contents(spec_consume(spec_publish(e, v).0).0).len() == 0,
{
    let e1 = spec_publish(e, v).0;
    assert(queue_contents(e1) =~= queue_contents(e).push(v));
    assert(queue_contents(e1)[0] == v);
}

/// The counter state reached after `n` announce calls.
pub open spec fn announce_n(e: Option<EntryModel>, n: nat) -> Option<EntryModel>
    decreases n,
{
    if n == 0 {
        e
    } else {
        spec_announce(announce_n(e, (n - 1) as nat)).0
    }
}

/// The value a barrier waiter reads from a key state.
pub open spec fn counter_value(e: Option<EntryModel>) -> u64 {
    spec_read(e).0
}

/// On a fresh key, `k` announce calls leave the counter at exactly `k`:
/// no increment is lost and none is counted twice.
pub proof fn lemma_announce_count(k: nat)
    requires
        k <= u64::MAX,
    ensures
        k == 0 ==> announce_n(None, k) == None::<EntryModel>,
        k >= 1 ==> announce_n(None, k) == Some(EntryModel::Counter(k as u64)),
    decreases k,
{
    if k >= 1 {
        lemma_announce_count((k - 1) as nat);
    }
}

/// Barrier law: for a target of `target` waiters on a fresh barrier key,
/// the `k`-th announce call observes exactly `k` from its own atomic
/// increment, so a caller returns immediately if and only if at least
/// `target` calls have completed (every call from the `target`-th on
/// returns at once); and while fewer than `target` calls have been made,
/// no poll of the counter releases any waiter.
pub proof fn lemma_barrier(k: nat, target: u64)
    requires
        1 <= k <= u64::MAX,
    ensures
        counter_value(announce_n(None, k)) == k,
        spec_announce(announce_n(None, (k - 1) as nat)).1 == k,
        spec_announce(announce_n(None, (k - 1) as nat)).2,
        (spec_announce(announce_n(None, (k - 1) as nat)).1 >= target) <==> (k >= target),
        k < target ==> counter_value(announce_n(None, k)) < target,
{
    lemma_announce_count(k);
    lemma_announce_count((k - 1) as nat);
}

/// Idempotent purge law: purging a key twice, or purging a key that was
/// never created, succeeds with no observable difference afterwards — the
/// key is absent either way: its counter reads zero and a consume finds
/// nothing waiting.
pub proof fn lemma_purge_idempotent(e: Option<EntryModel>)
    ensures
        spec_purge(spec_purge(e)) == spec_purge(e),
        spec_purge(None) == None::<EntryModel>,
        spec_read(spec_purge(e)) == (0u64, true),
        spec_consume(spec_purge(e)).1 is None,
{
}

} // verus!
