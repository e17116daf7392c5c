//! The jitter buffer: a bounded reorder buffer keyed by sequence number,
//! yielding frames in strictly increasing sequence order.
//!
//! A frame whose sequence is below the next expected one is dropped as
//! late. Inserting past the capacity evicts the smallest sequence first,
//! keeping the freshest history. Popping yields only the next expected
//! sequence — gaps are never skipped.

use vstd::prelude::*;

verus! {

/// The sequence number after `s`, wrapping at the top of `u32`.
pub open spec fn seq_succ(s: u32) -> u32 {
    if s == u32::MAX {
        0
    } else {
        (s + 1) as u32
    }
}

/// `keys` with `s` inserted in sorted position, unchanged when already
/// present.
pub open spec fn insert_key_spec(keys: Seq<u32>, s: u32) -> Seq<u32>
    decreases keys.len(),
{
    if keys.len() == 0 {
        seq![s]
    } else if s < keys[0] {
        seq![s] + keys
    } else if s == keys[0] {
        keys
    } else {
        seq![keys[0]] + insert_key_spec(keys.drop_first(), s)
    }
}

/// The suffix of `keys` that head-dropping down to `cap` entries leaves.
pub open spec fn evict_spec(keys: Seq<u32>, cap: usize) -> Seq<u32> {
    if keys.len() > cap {
        keys.skip(keys.len() - cap)
    } else {
        keys
    }
}


/// The key projection of an entry sequence.
pub open spec fn keys_of(entries: Seq<(u32, Vec<u8>)>) -> Seq<u32> {
    entries.map_values(|e: (u32, Vec<u8>)| e.0)
}

/// The frame stored under `k` in an entry sequence.
pub open spec fn frame_at(entries: Seq<(u32, Vec<u8>)>, k: u32) -> Seq<u8>
    recommends
        keys_of(entries).contains(k),
{
    entries[keys_of(entries).index_of(k)].1@
}

/// A bounded reorder buffer: entries sorted by sequence, the next
/// expected sequence, and the capacity.
pub struct JitterBuffer {
    entries: Vec<(u32, Vec<u8>)>,
    next_seq: u32,
    capacity: usize,
}

impl JitterBuffer {
    /// The sequence the next pop waits for.
    pub closed spec fn spec_next(self) -> u32 {
        self.next_seq
    }

    /// The buffer's capacity in frames.
    pub closed spec fn spec_capacity(self) -> usize {
        self.capacity
    }

    /// The buffered sequence numbers, in increasing order.
    pub closed spec fn spec_keys(self) -> Seq<u32> {
        keys_of(self.entries@)
    }

    /// How many frames are buffered.
    pub open spec fn spec_len(self) -> nat {
        self.spec_keys().len()
    }

    /// Whether a frame with sequence `s` is buffered.
    pub open spec fn spec_has(self, s: u32) -> bool {
        self.spec_keys().contains(s)
    }

    /// The frame buffered under sequence `s`.
    pub closed spec fn spec_frame(self, s: u32) -> Seq<u8> {
        frame_at(self.entries@, s)
    }

    /// Well-formedness: sequences strictly increasing, none below the
    /// next expected one, and no more entries than the capacity.
    pub closed spec fn wf(self) -> bool {
        &&& forall|i: int, j: int|
            0 <= i < j < self.entries@.len() ==> self.entries@[i].0 < self.entries@[j].0
        &&& forall|i: int| 0 <= i < self.entries@.len() ==> self.entries@[i].0 >= self.next_seq
        &&& self.entries@.len() <= self.capacity
    }

    /// An empty buffer expecting `start_seq` first.
    pub fn new(start_seq: u32, capacity: usize) -> (b: Self)
        ensures
            b.wf(),
            b.spec_next() == start_seq,
            b.spec_capacity() == capacity,
            b.spec_len() == 0,
    {
        let b = Self { entries: Vec::new(), next_seq: start_seq, capacity };
        proof {
            assert(b.spec_keys() =~= Seq::<u32>::empty());
        }
        b
    }

    /// How many frames are buffered.
    pub fn len(&self) -> (n: usize)
        ensures
            n == self.spec_len(),
    {
        self.entries.len()
    }

    /// Push a frame. A sequence below the next expected one is dropped
    /// and the buffer is unchanged; otherwise the frame is stored under
    /// its sequence (replacing any frame already there), and the smallest
    /// sequences are evicted until the capacity holds.
    #[verifier::rlimit(50)]
    pub fn push(&mut self, seq: u32, frame: Vec<u8>)
        requires
            old(self).wf(),
        ensures
            final(self).wf(),
            seq < old(self).spec_next() ==> *final(self) == *old(self),
            seq >= old(self).spec_next() ==> {
                &&& final(self).spec_keys() == evict_spec(
                    insert_key_spec(old(self).spec_keys(), seq),
                    old(self).spec_capacity(),
                )
                &&& forall|k: u32|
                    final(self).spec_has(k) ==> final(self).spec_frame(k) == (if k == seq {
                        frame@
                    } else {
                        old(self).spec_frame(k)
                    })
            },
            final(self).spec_next() == old(self).spec_next(),
            final(self).spec_capacity() == old(self).spec_capacity(),
            final(self).spec_len() <= final(self).spec_capacity(),
    {
        if seq < self.next_seq {
            return ;
        }

        let ghost old_entries = self.entries@;

        let mut i: usize = 0;
        while i < self.entries.len() && self.entries[i].0 < seq
            invariant
                0 <= i <= self.entries@.len(),
                forall|j: int| 0 <= j < i ==> self.entries@[j].0 < seq,
                self.entries@ == old_entries,
            decreases self.entries@.len() - i,
        {
            i = i + 1;
        }

        if i < self.entries.len() && self.entries[i].0 == seq {
            self.entries.remove(i);
            self.entries.insert(i, (seq, frame));
            proof {
                assert forall|p: int, q: int|
                    0 <= p < q < self.entries@.len() implies self.entries@[p].0
                    < self.entries@[q].0 by {
                    assert(old_entries[p].0 < old_entries[q].0);
                }
                lemma_insert_key_at(keys_of(old_entries), seq, i as int);
                assert(keys_of(self.entries@) =~= insert_key_spec(keys_of(old_entries), seq));
                assert forall|p: int| 0 <= p < self.entries@.len() implies (if self.entries@[p].0
                    == seq {
                    self.entries@[p].1 == frame
                } else {
                    exists|j: int|
                        0 <= j < old_entries.len() && old_entries[j] == self.entries@[p]
                }) by {
                    if p != i {
                        assert(old_entries[p] == self.entries@[p]);
                        if self.entries@[p].0 == seq {
                            assert(keys_of(old_entries)[p] == seq);
                            assert(keys_of(old_entries)[i as int] == seq);
                        }
                    }
                }
                assert forall|p: int| 0 <= p < self.entries@.len() implies self.entries@[p].0
                    >= self.next_seq by {
                    if p != i {
                        assert(old_entries[p] == self.entries@[p]);
                    }
                }
            }
        } else {
            self.entries.insert(i, (seq, frame));
            proof {
                assert forall|p: int, q: int|
                    0 <= p < q < self.entries@.len() implies self.entries@[p].0
                    < self.entries@[q].0 by {
                    if q < i {
                        assert(old_entries[p].0 < old_entries[q].0);
                    } else if p > i {
                        assert(old_entries[p - 1].0 < old_entries[q - 1].0);
                    } else if p < i && q > i {
                        assert(old_entries[p].0 < old_entries[q - 1].0 || p == q - 1);
                    }
                }
                lemma_insert_key_at(keys_of(old_entries), seq, i as int);
                assert(keys_of(self.entries@) =~= insert_key_spec(keys_of(old_entries), seq));
                assert forall|p: int| 0 <= p < self.entries@.len() implies (if self.entries@[p].0
                    == seq {
                    self.entries@[p].1 == frame
                } else {
                    exists|j: int|
                        0 <= j < old_entries.len() && old_entries[j] == self.entries@[p]
                }) by {
                    if p < i {
                        assert(old_entries[p] == self.entries@[p]);
                        assert(old_entries[p].0 < seq);
                    } else if p > i {
                        assert(old_entries[p - 1] == self.entries@[p]);
                        if self.entries@[p].0 == seq {
                            assert(old_entries[i as int].0 <= old_entries[p - 1].0);
                        }
                    }
                }
                assert forall|p: int| 0 <= p < self.entries@.len() implies self.entries@[p].0
                    >= self.next_seq by {
                    if p < i {
                        assert(old_entries[p] == self.entries@[p]);
                    } else if p > i {
                        assert(old_entries[p - 1] == self.entries@[p]);
                    }
                }
            }
        }

        let ghost inserted = self.entries@;

        while self.entries.len() > self.capacity
            invariant
                self.next_seq == old(self).next_seq,
                self.capacity == old(self).capacity,
                self.entries@.len() <= inserted.len(),
                self.entries@ =~= inserted.skip(inserted.len() - self.entries@.len()),
                self.entries@.len() >= self.capacity || self.entries@.len() == inserted.len(),
            decreases self.entries@.len(),
        {
            let ghost pre = self.entries@;
            self.entries.remove(0);
            proof {
                let k = inserted.len() - pre.len();
                assert(pre =~= inserted.skip(k));
                assert(self.entries@ =~= inserted.skip(k + 1));
            }
        }

        proof {
            let ks = keys_of(inserted);
            let n = inserted.len() - self.entries@.len();
            assert(self.entries@ =~= inserted.skip(n));
            if inserted.len() > self.capacity {
                assert(self.spec_keys() =~= ks.skip(ks.len() - self.capacity));
            } else {
                assert(n == 0);
                assert(self.entries@ =~= inserted);
                assert(self.spec_keys() =~= ks);
            }
            assert(self.spec_keys() =~= evict_spec(ks, self.capacity));
            assert forall|p: int, q: int|
                0 <= p < q < self.entries@.len() implies self.entries@[p].0
                < self.entries@[q].0 by {
                assert(inserted[p + n].0 < inserted[q + n].0);
            }
            assert forall|p: int| 0 <= p < self.entries@.len() implies self.entries@[p].0
                >= self.next_seq by {
                assert(self.entries@[p] == inserted[p + n]);
            }
            lemma_frames_after_push(old_entries, inserted, self.entries@, seq, frame);
        }
    }

    /// Pop the next expected frame if it is here: remove it, advance the
    /// expected sequence, and return it. Nothing is returned — and
    /// nothing changes — while the expected sequence is missing.
    pub fn pop(&mut self) -> (r: Option<Vec<u8>>)
        requires
            old(self).wf(),
        ensures
            final(self).wf(),
            old(self).spec_has(old(self).spec_next()) ==> {
                &&& r is Some
                &&& r.unwrap()@ == old(self).spec_frame(old(self).spec_next())
                &&& final(self).spec_keys() == old(self).spec_keys().drop_first()
                &&& final(self).spec_next() == seq_succ(old(self).spec_next())
                &&& forall|k: u32|
                    final(self).spec_has(k) ==> final(self).spec_frame(k) == old(self).spec_frame(
                        k,
                    )
            },
            !old(self).spec_has(old(self).spec_next()) ==> r is None && *final(self) == *old(self),
            final(self).spec_capacity() == old(self).spec_capacity(),
    {
        if self.entries.len() > 0 {
            let head_seq = self.entries[0].0;
            if head_seq == self.next_seq {
                proof {
                    assert(self.spec_keys()[0] == head_seq);
                    assert(self.spec_has(head_seq));
                    assert(self.spec_keys().index_of(head_seq) == 0) by {
                        lemma_sorted_index_of(self.spec_keys(), head_seq, 0);
                    }
                }
                let ghost prev = *self;
                let (_, frame) = self.entries.remove(0);
                if self.next_seq == u32::MAX {
                    self.next_seq = 0;
                } else {
                    self.next_seq = self.next_seq + 1;
                }
                proof {
                    assert(self.spec_keys() =~= prev.spec_keys().drop_first());
                    assert forall|k: u32| self.spec_has(k) implies self.spec_frame(k)
                        == prev.spec_frame(k) by {
                        let i = self.spec_keys().index_of(k);
                        assert(self.spec_keys()[i] == k);
                        assert(prev.spec_keys()[i + 1] == k);
                        lemma_sorted_index_of(prev.spec_keys(), k, i + 1);
                    }
                }
                return Some(frame);
            }
        }
        proof {
            if self.spec_has(self.next_seq) {
                let i = self.spec_keys().index_of(self.next_seq);
                assert(self.spec_keys()[i] == self.next_seq);
                assert(self.entries@[0].0 >= self.next_seq);
                if i > 0 {
                    assert(self.entries@[0].0 < self.entries@[i].0);
                }
            }
        }
        None
    }
}

/// In a strictly sorted key sequence, an element's position is unique, so
/// `index_of` finds exactly the position it occurs at.
proof fn lemma_sorted_index_of(keys: Seq<u32>, k: u32, i: int)
    requires
        forall|p: int, q: int| 0 <= p < q < keys.len() ==> keys[p] < keys[q],
        0 <= i < keys.len(),
        keys[i] == k,
    ensures
        keys.index_of(k) == i,
{
    assert(keys.contains(k));
    let j = keys.index_of(k);
    assert(keys[j] == k);
    if j < i {
        assert(keys[j] < keys[i]);
    }
    if j > i {
        assert(keys[i] < keys[j]);
    }
}

/// Sorted insertion at the first position whose key is not smaller
/// produces exactly `insert_key_spec`.
proof fn lemma_insert_key_at(keys: Seq<u32>, s: u32, i: int)
    requires
        forall|p: int, q: int| 0 <= p < q < keys.len() ==> keys[p] < keys[q],
        0 <= i <= keys.len(),
        forall|j: int| 0 <= j < i ==> keys[j] < s,
        i < keys.len() ==> keys[i] >= s,
    ensures
        i < keys.len() && keys[i] == s ==> insert_key_spec(keys, s) == keys,
        (i == keys.len() || keys[i] != s) ==> insert_key_spec(keys, s) =~= keys.subrange(0, i)
            + seq![s] + keys.skip(i),
    decreases keys.len(),
{
    if keys.len() == 0 {
        assert(insert_key_spec(keys, s) =~= keys.subrange(0, 0) + seq![s] + keys.skip(0));
    } else if s < keys[0] {
        assert(i == 0);
        assert(insert_key_spec(keys, s) =~= keys.subrange(0, 0) + seq![s] + keys.skip(0));
    } else if s == keys[0] {
        assert(i == 0);
    } else {
        assert(i >= 1);
        let rest = keys.drop_first();
        lemma_insert_key_at(rest, s, i - 1);
        if i < keys.len() && keys[i] == s {
            assert(rest[i - 1] == s);
            assert(insert_key_spec(keys, s) =~= seq![keys[0]] + rest);
            assert(seq![keys[0]] + rest =~= keys);
        } else {
            assert(insert_key_spec(keys, s) =~= seq![keys[0]] + (rest.subrange(0, i - 1) + seq![s]
                + rest.skip(i - 1)));
            assert(seq![keys[0]] + (rest.subrange(0, i - 1) + seq![s] + rest.skip(i - 1)) =~= keys
                .subrange(0, i) + seq![s] + keys.skip(i));
        }
    }
}

/// After inserting `(seq, frame)` and head-dropping, each surviving key
/// maps to the frame it mapped to before, except `seq`, which maps to the
/// new frame.
proof fn lemma_frames_after_push(
    old_entries: Seq<(u32, Vec<u8>)>,
    inserted: Seq<(u32, Vec<u8>)>,
    entries: Seq<(u32, Vec<u8>)>,
    seq: u32,
    frame: Vec<u8>,
)
    requires
        forall|p: int, q: int| 0 <= p < q < inserted.len() ==> inserted[p].0 < inserted[q].0,
        forall|p: int, q: int| 0 <= p < q < old_entries.len() ==> old_entries[p].0 < old_entries[q].0,
        exists|n: int|
            0 <= n <= inserted.len() && entries =~= inserted.skip(n),
        forall|i: int|
            0 <= i < inserted.len() ==> (if inserted[i].0 == seq {
                inserted[i].1 == frame
            } else {
                exists|j: int| 0 <= j < old_entries.len() && old_entries[j] == inserted[i]
            }),
    ensures
        forall|k: u32|
            #[trigger] keys_of(entries).contains(k) ==> frame_at(entries, k) == (if k == seq {
                frame@
            } else {
                frame_at(old_entries, k)
            }),
{
    let n = choose|n: int| 0 <= n <= inserted.len() && entries =~= inserted.skip(n);
    let keys = keys_of(entries);
    assert forall|k: u32| keys.contains(k) implies frame_at(entries, k) == (if k == seq {
        frame@
    } else {
        frame_at(old_entries, k)
    }) by {
        let i = keys.index_of(k);
        assert(keys[i] == k);
        assert(entries[i].0 == k);
        assert(entries[i] == inserted[i + n]);
        if k == seq {
            assert(inserted[i + n].1 == frame);
        } else {
            let j = choose|j: int|
                0 <= j < old_entries.len() && old_entries[j] == inserted[i + n];
            assert(old_entries[j].0 == k);
            let okeys = keys_of(old_entries);
            assert(okeys[j] == k);
            lemma_sorted_index_of_entries(old_entries, k, j);
            assert(okeys.index_of(k) == j);
        }
    }
}

/// `index_of` over the key projection of a strictly sorted entry sequence
/// finds the position the key occurs at.
proof fn lemma_sorted_index_of_entries(entries: Seq<(u32, Vec<u8>)>, k: u32, i: int)
    requires
        forall|p: int, q: int| 0 <= p < q < entries.len() ==> entries[p].0 < entries[q].0,
        0 <= i < entries.len(),
        entries[i].0 == k,
    ensures
        keys_of(entries).index_of(k) == i,
{
    let keys = keys_of(entries);
    assert(keys[i] == k);
    lemma_sorted_index_of(keys, k, i);
}

/// The buffered sequences of a well-formed buffer are strictly increasing
/// and none is below the next expected one: frames can only leave the
/// buffer in strictly increasing sequence order.
pub proof fn lemma_jitter_keys_sorted(b: JitterBuffer)
    requires
        b.wf(),
    ensures
        forall|i: int, j: int| 0 <= i < j < b.spec_keys().len() ==> b.spec_keys()[i] < b.spec_keys()[j],
        forall|i: int| 0 <= i < b.spec_keys().len() ==> b.spec_keys()[i] >= b.spec_next(),
        b.spec_len() <= b.spec_capacity(),
{
}

/// The position of the run value `s + j` among the keys.
spec fn run_idx(b: JitterBuffer, j: int) -> int {
    b.spec_keys().index_of(((b.spec_next() + j) as u32))
}

/// A run value sits among the keys at a valid position.
proof fn lemma_run_idx_valid(b: JitterBuffer, j: int)
    requires
        b.spec_has(((b.spec_next() + j) as u32)),
    ensures
        0 <= run_idx(b, j) < b.spec_keys().len(),
        b.spec_keys()[run_idx(b, j)] == ((b.spec_next() + j) as u32),
{
    let keys = b.spec_keys();
    let v = ((b.spec_next() + j) as u32);
    assert(keys.contains(v));
}

/// Positions of consecutive run values strictly increase.
proof fn lemma_run_idx_monotone(b: JitterBuffer, k: int, j: int)
    requires
        b.wf(),
        b.spec_next() + k <= u32::MAX,
        0 < j <= k,
        forall|i: int| 0 <= i <= k ==> b.spec_has(#[trigger] ((b.spec_next() + i) as u32)),
    ensures
        run_idx(b, j - 1) < run_idx(b, j),
{
    lemma_jitter_keys_sorted(b);
    lemma_run_idx_valid(b, j - 1);
    lemma_run_idx_valid(b, j);
    let keys = b.spec_keys();
    if run_idx(b, j) < run_idx(b, j - 1) {
        assert(keys[run_idx(b, j)] < keys[run_idx(b, j - 1)]);
    }
    assert(keys[run_idx(b, j - 1)] < keys[run_idx(b, j)]);
}

/// The run value `s + j` sits at position at least `j`.
proof fn lemma_run_idx_lower(b: JitterBuffer, k: int, j: int)
    requires
        b.wf(),
        b.spec_next() + k <= u32::MAX,
        0 <= j <= k,
        forall|i: int| 0 <= i <= k ==> b.spec_has(#[trigger] ((b.spec_next() + i) as u32)),
    ensures
        run_idx(b, j) >= j,
    decreases j,
{
    if j > 0 {
        lemma_run_idx_lower(b, k, j - 1);
        lemma_run_idx_monotone(b, k, j);
    }
}

/// The run value `s + j` sits at position at most `j` when the buffer
/// holds nothing but the run.
proof fn lemma_run_idx_upper(b: JitterBuffer, k: int, j: int)
    requires
        b.wf(),
        b.spec_next() + k <= u32::MAX,
        b.spec_len() == k + 1,
        0 <= j <= k,
        forall|i: int| 0 <= i <= k ==> b.spec_has(#[trigger] ((b.spec_next() + i) as u32)),
    ensures
        run_idx(b, j) <= j,
    decreases k - j,
{
    if j < k {
        lemma_run_idx_upper(b, k, j + 1);
        lemma_run_idx_monotone(b, k, j + 1);
    } else {
        lemma_run_idx_valid(b, k);
    }
}

/// Frames leave in strictly increasing sequence order: when a
/// well-formed buffer holds exactly the consecutive sequences
/// `s, s+1, …, s+k` with `s` the next expected one — a permutation of
/// the run pushed in any order — its delivery order is exactly
/// `s, s+1, …, s+k`: the pop at each step hands out the next sequence,
/// until the buffer is empty.
pub proof fn lemma_jitter_in_order_delivery(b: JitterBuffer, k: int)
    requires
        b.wf(),
        0 <= k,
        b.spec_next() + k <= u32::MAX,
        b.spec_len() == k + 1,
        forall|i: int| 0 <= i <= k ==> b.spec_has(#[trigger] ((b.spec_next() + i) as u32)),
    ensures
        forall|j: int|
            0 <= j <= k ==> b.spec_keys()[j] == ((b.spec_next() + j) as u32),
{
    assert forall|j: int| 0 <= j <= k implies b.spec_keys()[j] == ((b.spec_next() + j) as u32) by {
        lemma_run_idx_valid(b, j);
        lemma_run_idx_lower(b, k, j);
        lemma_run_idx_upper(b, k, j);
    }
}

} // verus!
