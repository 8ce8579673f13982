use vstd::prelude::*;

verus! {

/// The order key of an `f32` given by its bit pattern: comparing keys as
/// integers is comparing the floats by IEEE 754 total order (negative values
/// by decreasing magnitude, then `-0.0`, `+0.0`, positive values by increasing
/// magnitude; NaNs at the ends by sign).
pub open spec fn spec_total_order_key(bits: u32) -> int {
    if bits < 0x8000_0000 {
        bits as int
    } else {
        -1 - (bits - 0x8000_0000)
    }
}

/// Computes the total-order key of the `f32` whose bits are `bits`.
pub fn total_order_key(bits: u32) -> (key: i32)
    ensures
        key == spec_total_order_key(bits),
{
    if bits < 0x8000_0000 {
        bits as i32
    } else {
        let magnitude: u32 = bits - 0x8000_0000;
        -1 - (magnitude as i32)
    }
}

/// Keys order floats as IEEE total order does: by magnitude among positive
/// bit patterns, by reversed magnitude among negative ones, every negative
/// one below every positive one; distinct bit patterns get distinct keys.
pub proof fn lemma_total_order_key(a: u32, b: u32)
    ensures
        a < 0x8000_0000 && b < 0x8000_0000 ==> (spec_total_order_key(a) < spec_total_order_key(b) <==> a < b),
        a >= 0x8000_0000 && b >= 0x8000_0000 ==> (spec_total_order_key(a) < spec_total_order_key(b) <==> a > b),
        a >= 0x8000_0000 && b < 0x8000_0000 ==> spec_total_order_key(a) < spec_total_order_key(b),
        spec_total_order_key(a) == spec_total_order_key(b) <==> a == b,
{
}

/// A scheduled note with the key it is ordered by.
pub struct Entry<N> {
    pub key: i32,
    pub note: N,
}

/// Whether entries are ordered by nondecreasing key.
pub open spec fn sorted_by_key<N>(s: Seq<Entry<N>>) -> bool {
    forall|i: int, j: int| 0 <= i < j < s.len() ==> #[trigger] s[i].key <= #[trigger] s[j].key
}

/// The notes of a piece ordered by start time, and the playback position:
/// the index of the next note to hand to the audio engine.
pub struct Schedule<N> {
    entries: Vec<Entry<N>>,
    next: usize,
}

impl<N> Schedule<N> {
    pub closed spec fn entries(self) -> Seq<Entry<N>> {
        self.entries@
    }

    pub closed spec fn next(self) -> nat {
        self.next as nat
    }

    /// Entries are sorted by key and the playback position lies within them.
    pub open spec fn wf(self) -> bool {
        &&& sorted_by_key(self.entries())
        &&& self.next() <= self.entries().len()
    }

    #[verifier::type_invariant]
    spec fn inv(self) -> bool {
        &&& sorted_by_key(self.entries@)
        &&& self.next <= self.entries@.len()
    }

    /// An empty schedule at its start.
    pub fn new() -> (s: Self)
        ensures
            s.wf(),
            s.entries() == Seq::<Entry<N>>::empty(),
            s.next() == 0,
    {
        Schedule { entries: Vec::new(), next: 0 }
    }

    pub fn len(&self) -> (n: usize)
        ensures
            n == self.entries().len(),
    {
        self.entries.len()
    }

    /// The index of the next note to be played.
    pub fn next_index(&self) -> (i: usize)
        ensures
            i == self.next(),
    {
        self.next
    }

    pub fn note(&self, i: usize) -> (n: &N)
        requires
            i < self.entries().len(),
        ensures
            *n == self.entries()[i as int].note,
    {
        &self.entries[i].note
    }

    pub fn key(&self, i: usize) -> (k: i32)
        requires
            i < self.entries().len(),
        ensures
            k == self.entries()[i as int].key,
    {
        self.entries[i].key
    }

    /// Adds a note, keeping the entries ordered by key; a note goes after
    /// every note whose key is not greater, so notes with equal keys keep
    /// the order they arrived in. The playback position is left as it is.
    pub fn insert(&mut self, key: i32, note: N) -> (pos: usize)
        ensures
            old(self).wf(),
            final(self).wf(),
            pos <= old(self).entries().len(),
            final(self).entries() == old(self).entries().insert(pos as int, Entry { key, note }),
            forall|j: int| 0 <= j < pos ==> #[trigger] old(self).entries()[j].key <= key,
            forall|j: int|
                pos <= j < old(self).entries().len() ==> #[trigger] old(self).entries()[j].key > key,
            final(self).next() == old(self).next(),
    {
        proof {
            use_type_invariant(&*self);
        }
        let n: usize = self.entries.len();
        let mut pos: usize = 0;
        while pos < n && self.entries[pos].key <= key
            invariant
                n == self.entries@.len(),
                sorted_by_key(self.entries@),
                pos <= n,
                forall|j: int| 0 <= j < pos ==> #[trigger] self.entries@[j].key <= key,
            decreases n - pos,
        {
            pos = pos + 1;
        }
        proof {
            assert forall|j: int| pos <= j < n implies #[trigger] self.entries@[j].key > key by {
                assert(self.entries@[pos as int].key > key);
                if j > pos {
                    assert(self.entries@[pos as int].key <= self.entries@[j].key);
                }
            }
        }
        let ghost before = self.entries@;
        let next: usize = self.next;
        self.next = 0;
        let mut entries: Vec<Entry<N>> = Vec::new();
        std::mem::swap(&mut entries, &mut self.entries);
        entries.insert(pos, Entry { key, note });
        proof {
            let after = entries@;
            assert forall|i: int, j: int| 0 <= i < j < after.len() implies #[trigger] after[i].key
                <= #[trigger] after[j].key by {
                if j < pos {
                    assert(after[i] == before[i] && after[j] == before[j]);
                } else if j == pos {
                    assert(after[i] == before[i]);
                } else if i < pos {
                    assert(after[i] == before[i] && after[j] == before[j - 1]);
                } else if i == pos {
                    assert(after[j] == before[j - 1]);
                } else {
                    assert(after[i] == before[i - 1] && after[j] == before[j - 1]);
                }
            }
        }
        self.entries = entries;
        self.next = next;
        pos
    }

    /// One step of playback: when the next note is due (as `is_due` judges
    /// it), hands out its index and moves the playback position past it.
    pub fn poll<F: Fn(&N) -> bool>(&mut self, is_due: F) -> (sent: Option<usize>)
        requires
            forall|n: N| call_requires(is_due, (&n,)),
        ensures
            old(self).wf(),
            final(self).wf(),
            final(self).entries() == old(self).entries(),
            match sent {
                Some(i) => {
                    &&& i == old(self).next()
                    &&& i < old(self).entries().len()
                    &&& call_ensures(is_due, (&old(self).entries()[i as int].note,), true)
                    &&& final(self).next() == old(self).next() + 1
                },
                None => {
                    &&& final(self).next() == old(self).next()
                    &&& (old(self).next() == old(self).entries().len() || call_ensures(
                        is_due,
                        (&old(self).entries()[old(self).next() as int].note,),
                        false,
                    ))
                },
            },
    {
        proof {
            use_type_invariant(&*self);
        }
        if self.next < self.entries.len() {
            let i: usize = self.next;
            if is_due(&self.entries[i].note) {
                self.next = i + 1;
                return Some(i);
            }
        }
        None
    }
}

} // verus!
