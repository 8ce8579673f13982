use vstd::prelude::*;

verus! {

/// `s` with the elements at the positions in `removed` taken out, the others
/// kept in order.
pub open spec fn without_positions<N>(s: Seq<N>, removed: Set<int>) -> Seq<N>
    decreases s.len(),
{
    if s.len() == 0 {
        s
    } else {
        let rest = without_positions(s.drop_last(), removed);
        if removed.contains(s.len() - 1) {
            rest
        } else {
            rest.push(s.last())
        }
    }
}

/// The positions listed in the first `k` elements of `idx`.
pub open spec fn listed(idx: Seq<usize>, k: int) -> Set<int> {
    Set::new(|p: int| exists|j: int| 0 <= j < k && idx[j] as int == p)
}

/// The positions listed in `idx`.
pub open spec fn positions(idx: Seq<usize>) -> Set<int> {
    Set::new(|p: int| exists|j: int| 0 <= j < idx.len() && idx[j] as int == p)
}

/// Whether `idx` lists positions below `len` in strictly decreasing order.
pub open spec fn strictly_decreasing_below(idx: Seq<usize>, len: nat) -> bool {
    &&& forall|j: int| 0 <= j < idx.len() ==> #[trigger] idx[j] < len
    &&& forall|i: int, j: int| 0 <= i < j < idx.len() ==> #[trigger] idx[i] > #[trigger] idx[j]
}

proof fn lemma_without_none_removed<N>(s: Seq<N>, removed: Set<int>)
    requires
        forall|p: int| removed.contains(p) ==> p >= s.len(),
    ensures
        without_positions(s, removed) == s,
    decreases s.len(),
{
    if s.len() > 0 {
        lemma_without_none_removed(s.drop_last(), removed);
        assert(s.drop_last().push(s.last()) =~= s);
    }
}

proof fn lemma_without_keeps_prefix<N>(s: Seq<N>, removed: Set<int>, i: int)
    requires
        0 <= i < s.len(),
        forall|p: int| removed.contains(p) ==> p > i,
    ensures
        without_positions(s, removed).len() > i,
        forall|j: int| 0 <= j <= i ==> #[trigger] without_positions(s, removed)[j] == s[j],
    decreases s.len(),
{
    if i == s.len() - 1 {
        lemma_without_none_removed(s.drop_last(), removed);
    } else {
        lemma_without_keeps_prefix(s.drop_last(), removed, i);
    }
}

proof fn lemma_without_remove_one_more<N>(s: Seq<N>, removed: Set<int>, i: int)
    requires
        0 <= i < s.len(),
        forall|p: int| removed.contains(p) ==> p > i,
    ensures
        without_positions(s, removed.insert(i)) == without_positions(s, removed).remove(i),
    decreases s.len(),
{
    let s2 = s.drop_last();
    let last = s.len() - 1;
    if i == last {
        lemma_without_none_removed(s2, removed.insert(i));
        lemma_without_none_removed(s2, removed);
        assert(s2.push(s.last()).remove(i) =~= s2);
    } else {
        lemma_without_remove_one_more(s2, removed, i);
        if !removed.contains(last) {
            lemma_without_keeps_prefix(s2, removed, i);
            let r = without_positions(s2, removed);
            assert(r.remove(i).push(s.last()) =~= r.push(s.last()).remove(i));
        }
    }
}

/// Takes out of `v` the elements at the positions listed in `idx`, which lists
/// positions of `v` in strictly decreasing order (so that each removal leaves
/// the positions still to be removed in place).
pub fn remove_positions<N>(v: &mut Vec<N>, idx: &Vec<usize>)
    requires
        strictly_decreasing_below(idx@, old(v)@.len()),
    ensures
        final(v)@ == without_positions(old(v)@, positions(idx@)),
{
    let ghost initial = v@;
    let n: usize = idx.len();
    let mut k: usize = 0;
    proof {
        lemma_without_none_removed(initial, listed(idx@, 0));
        assert(listed(idx@, 0) =~= Set::<int>::empty());
    }
    while k < n
        invariant
            n == idx@.len(),
            k <= n,
            strictly_decreasing_below(idx@, initial.len()),
            v@ == without_positions(initial, listed(idx@, k as int)),
        decreases n - k,
    {
        let i: usize = idx[k];
        proof {
            assert forall|p: int| listed(idx@, k as int).contains(p) implies p > i by {
                let j = choose|j: int| 0 <= j < k && idx@[j] as int == p;
                assert(idx@[j] > idx@[k as int]);
            }
            lemma_without_keeps_prefix(initial, listed(idx@, k as int), i as int);
            lemma_without_remove_one_more(initial, listed(idx@, k as int), i as int);
            assert(listed(idx@, k as int).insert(i as int) =~= listed(idx@, k + 1));
        }
        v.remove(i);
        k = k + 1;
    }
    proof {
        assert(listed(idx@, n as int) =~= positions(idx@));
    }
}


/// The notes of the piano roll being edited, and the note being dragged by
/// the primary button, if any (its index into the notes).
pub struct Editor<N> {
    notes: Vec<N>,
    dragged: Option<usize>,
}

impl<N> Editor<N> {
    pub closed spec fn notes_view(self) -> Seq<N> {
        self.notes@
    }

    pub closed spec fn dragged_view(self) -> Option<usize> {
        self.dragged
    }

    /// Whether the dragged index, if any, designates a note. Removing notes
    /// during a drag can leave it dangling.
    pub open spec fn dragged_valid(self) -> bool {
        self.dragged_view() matches Some(i) ==> i < self.notes_view().len()
    }

    /// No notes, nothing dragged.
    pub fn new() -> (e: Self)
        ensures
            e.notes_view() == Seq::<N>::empty(),
            e.dragged_view() is None,
    {
        Editor { notes: Vec::new(), dragged: None }
    }

    pub fn notes(&self) -> (notes: &Vec<N>)
        ensures
            notes@ == self.notes_view(),
    {
        &self.notes
    }

    pub fn dragged(&self) -> (d: Option<usize>)
        ensures
            d == self.dragged_view(),
    {
        self.dragged
    }

    pub fn is_dragged_valid(&self) -> (b: bool)
        ensures
            b == self.dragged_valid(),
    {
        match self.dragged {
            Some(i) => i < self.notes.len(),
            None => true,
        }
    }

    /// The last note (the one drawn on top) that `finder` accepts.
    pub fn last_matching<F: Fn(&N) -> bool>(&self, finder: F) -> (found: Option<usize>)
        requires
            forall|n: N| call_requires(finder, (&n,)),
        ensures
            match found {
                Some(i) => {
                    &&& i < self.notes_view().len()
                    &&& call_ensures(finder, (&self.notes_view()[i as int],), true)
                    &&& forall|j: int|
                        i < j < self.notes_view().len() ==> call_ensures(
                            finder,
                            (&#[trigger] self.notes_view()[j],),
                            false,
                        )
                },
                None => forall|j: int|
                    0 <= j < self.notes_view().len() ==> call_ensures(
                        finder,
                        (&#[trigger] self.notes_view()[j],),
                        false,
                    ),
            },
    {
        let mut i: usize = self.notes.len();
        while i > 0
            invariant
                i <= self.notes@.len(),
                forall|n: N| call_requires(finder, (&n,)),
                forall|j: int|
                    i <= j < self.notes@.len() ==> call_ensures(
                        finder,
                        (&#[trigger] self.notes@[j],),
                        false,
                    ),
            decreases i,
        {
            i = i - 1;
            if finder(&self.notes[i]) {
                return Some(i);
            }
        }
        None
    }

    /// Every note that `finder` accepts, by index, from the last to the first.
    pub fn matching_indices<F: Fn(&N) -> bool>(&self, finder: F) -> (found: Vec<usize>)
        requires
            forall|n: N| call_requires(finder, (&n,)),
        ensures
            strictly_decreasing_below(found@, self.notes_view().len()),
            forall|j: int|
                0 <= j < found@.len() ==> call_ensures(
                    finder,
                    (&self.notes_view()[#[trigger] found@[j] as int],),
                    true,
                ),
            forall|i: int|
                0 <= i < self.notes_view().len() && !positions(found@).contains(i)
                    ==> call_ensures(finder, (&#[trigger] self.notes_view()[i],), false),
    {
        let mut found: Vec<usize> = Vec::new();
        let mut i: usize = self.notes.len();
        while i > 0
            invariant
                i <= self.notes@.len(),
                forall|n: N| call_requires(finder, (&n,)),
                forall|j: int| 0 <= j < found@.len() ==> i <= #[trigger] found@[j] < self.notes@.len(),
                forall|a: int, b: int|
                    0 <= a < b < found@.len() ==> #[trigger] found@[a] > #[trigger] found@[b],
                forall|j: int|
                    0 <= j < found@.len() ==> call_ensures(
                        finder,
                        (&self.notes@[#[trigger] found@[j] as int],),
                        true,
                    ),
                forall|p: int|
                    i <= p < self.notes@.len() && !positions(found@).contains(p) ==> call_ensures(
                        finder,
                        (&#[trigger] self.notes@[p],),
                        false,
                    ),
            decreases i,
        {
            i = i - 1;
            let ghost before = found@;
            if finder(&self.notes[i]) {
                found.push(i);
                proof {
                    assert forall|p: int|
                        i <= p < self.notes@.len() && !positions(found@).contains(p) implies call_ensures(
                        finder,
                        (&#[trigger] self.notes@[p],),
                        false,
                    ) by {
                        if p != i {
                            if positions(before).contains(p) {
                                let j = choose|j: int| 0 <= j < before.len() && before[j] as int == p;
                                assert(found@[j] == before[j]);
                            }
                        } else {
                            assert(found@[before.len() as int] == i);
                        }
                    }
                }
            } else {
                proof {
                    assert forall|p: int|
                        i <= p < self.notes@.len() && !positions(found@).contains(p) implies call_ensures(
                        finder,
                        (&#[trigger] self.notes@[p],),
                        false,
                    ) by {
                        if p == i {
                            assert(!positions(found@).contains(p));
                        }
                    }
                }
            }
        }
        found
    }

    /// Adds a note on top of the others.
    pub fn add(&mut self, note: N)
        ensures
            final(self).notes_view() == old(self).notes_view().push(note),
            final(self).dragged_view() == old(self).dragged_view(),
    {
        self.notes.push(note);
    }

    /// Removes every note that `finder` accepts, keeping the others in order;
    /// returns the indices removed, from the last to the first. The dragged
    /// index is left as it is.
    pub fn remove_matching<F: Fn(&N) -> bool>(&mut self, finder: F) -> (removed: Vec<usize>)
        requires
            forall|n: N| call_requires(finder, (&n,)),
        ensures
            strictly_decreasing_below(removed@, old(self).notes_view().len()),
            forall|j: int|
                0 <= j < removed@.len() ==> call_ensures(
                    finder,
                    (&old(self).notes_view()[#[trigger] removed@[j] as int],),
                    true,
                ),
            forall|i: int|
                0 <= i < old(self).notes_view().len() && !positions(removed@).contains(i)
                    ==> call_ensures(finder, (&#[trigger] old(self).notes_view()[i],), false),
            final(self).notes_view() == without_positions(old(self).notes_view(), positions(removed@)),
            final(self).dragged_view() == old(self).dragged_view(),
    {
        let removed = self.matching_indices(finder);
        remove_positions(&mut self.notes, &removed);
        removed
    }

    /// Starts dragging with the primary button: the last note that `finder`
    /// accepts (the hovered one) is grabbed; when there is none, the note
    /// that `make` builds is added on top and grabbed. Returns the grabbed
    /// index.
    pub fn start_drag<F: Fn(&N) -> bool, M: FnOnce() -> N>(&mut self, finder: F, make: M) -> (grabbed: usize)
        requires
            forall|n: N| call_requires(finder, (&n,)),
            call_requires(make, ()),
        ensures
            final(self).dragged_view() == Some(grabbed),
            grabbed < final(self).notes_view().len(),
            grabbed < old(self).notes_view().len() ==> {
                &&& final(self).notes_view() == old(self).notes_view()
                &&& call_ensures(finder, (&old(self).notes_view()[grabbed as int],), true)
                &&& forall|j: int|
                    grabbed < j < old(self).notes_view().len() ==> call_ensures(
                        finder,
                        (&#[trigger] old(self).notes_view()[j],),
                        false,
                    )
            },
            grabbed == old(self).notes_view().len() ==> {
                &&& final(self).notes_view() == old(self).notes_view().push(
                    final(self).notes_view()[grabbed as int],
                )
                &&& call_ensures(make, (), final(self).notes_view()[grabbed as int])
                &&& forall|j: int|
                    0 <= j < old(self).notes_view().len() ==> call_ensures(
                        finder,
                        (&#[trigger] old(self).notes_view()[j],),
                        false,
                    )
            },
            grabbed <= old(self).notes_view().len(),
    {
        match self.last_matching(finder) {
            Some(i) => {
                self.dragged = Some(i);
                i
            },
            None => {
                let i: usize = self.notes.len();
                let note = make();
                self.notes.push(note);
                self.dragged = Some(i);
                i
            },
        }
    }

    /// Moves the dragged note, if any, to where `update` puts it.
    pub fn drag_to<U: Fn(&N) -> N>(&mut self, update: U)
        requires
            old(self).dragged_valid(),
            forall|n: N| call_requires(update, (&n,)),
        ensures
            final(self).dragged_view() == old(self).dragged_view(),
            match old(self).dragged_view() {
                Some(i) => {
                    &&& final(self).notes_view() == old(self).notes_view().update(
                        i as int,
                        final(self).notes_view()[i as int],
                    )
                    &&& call_ensures(
                        update,
                        (&old(self).notes_view()[i as int],),
                        final(self).notes_view()[i as int],
                    )
                },
                None => final(self).notes_view() == old(self).notes_view(),
            },
    {
        if let Some(i) = self.dragged {
            let moved = update(&self.notes[i]);
            self.notes[i] = moved;
        }
    }

    /// Ends the primary-button drag: the dragged note, if any, is put where
    /// `snap` puts it, and nothing is dragged any more. Returns the index
    /// that was dragged.
    pub fn stop_drag<U: Fn(&N) -> N>(&mut self, snap: U) -> (was: Option<usize>)
        requires
            old(self).dragged_valid(),
            forall|n: N| call_requires(snap, (&n,)),
        ensures
            was == old(self).dragged_view(),
            final(self).dragged_view() is None,
            match was {
                Some(i) => {
                    &&& final(self).notes_view() == old(self).notes_view().update(
                        i as int,
                        final(self).notes_view()[i as int],
                    )
                    &&& call_ensures(
                        snap,
                        (&old(self).notes_view()[i as int],),
                        final(self).notes_view()[i as int],
                    )
                },
                None => final(self).notes_view() == old(self).notes_view(),
            },
    {
        let was = self.dragged;
        self.dragged = None;
        if let Some(i) = was {
            let snapped = snap(&self.notes[i]);
            self.notes[i] = snapped;
        }
        was
    }
}


/// What the pointer did over the piano roll during one frame.
#[derive(Clone, Copy, Debug, PartialEq, Eq, Structural)]
pub struct PointerEvents {
    pub clicked_primary: bool,
    pub clicked_secondary: bool,
    pub drag_started_primary: bool,
    pub drag_started_secondary: bool,
    pub dragged_primary: bool,
    pub dragged_secondary: bool,
    pub drag_stopped_primary: bool,
}

/// The piano roll's pointer handlers, in the order they are tried.
#[derive(Clone, Copy, Debug, PartialEq, Eq, Structural)]
pub enum Gesture {
    /// Adds a note where the primary button clicked.
    ClickPrimary,
    /// Removes the notes under a secondary click.
    ClickSecondary,
    /// Grabs the hovered note, or a new one.
    DragStartPrimary,
    /// Removes the notes where a secondary drag starts.
    DragStartSecondary,
    /// Moves the grabbed note.
    DragPrimary,
    /// Removes the notes a secondary drag passes over.
    DragSecondary,
    /// Drops the grabbed note onto the grid.
    DragStopPrimary,
}

impl PointerEvents {
    /// Whether the event that the `k`-th handler answers happened.
    pub open spec fn happened(self, k: int) -> bool {
        if k == 0 {
            self.clicked_primary
        } else if k == 1 {
            self.clicked_secondary
        } else if k == 2 {
            self.drag_started_primary
        } else if k == 3 {
            self.drag_started_secondary
        } else if k == 4 {
            self.dragged_primary
        } else if k == 5 {
            self.dragged_secondary
        } else {
            self.drag_stopped_primary
        }
    }
}

/// The `k`-th handler in order.
pub open spec fn gesture_at(k: int) -> Gesture {
    if k == 0 {
        Gesture::ClickPrimary
    } else if k == 1 {
        Gesture::ClickSecondary
    } else if k == 2 {
        Gesture::DragStartPrimary
    } else if k == 3 {
        Gesture::DragStartSecondary
    } else if k == 4 {
        Gesture::DragPrimary
    } else if k == 5 {
        Gesture::DragSecondary
    } else {
        Gesture::DragStopPrimary
    }
}

/// The handlers that run, trying them from the `k`-th on: each runs when its
/// event happened, and every one but `DragPrimary` ends the frame's handling
/// once it ran.
pub open spec fn handled_from(ev: PointerEvents, k: int) -> Seq<Gesture>
    decreases 7 - k,
{
    if k >= 7 || k < 0 {
        Seq::empty()
    } else if ev.happened(k) {
        if k == 4 {
            seq![gesture_at(k)] + handled_from(ev, k + 1)
        } else {
            seq![gesture_at(k)]
        }
    } else {
        handled_from(ev, k + 1)
    }
}

/// The position of a handler in the order they are tried.
pub open spec fn gesture_index(g: Gesture) -> int {
    match g {
        Gesture::ClickPrimary => 0,
        Gesture::ClickSecondary => 1,
        Gesture::DragStartPrimary => 2,
        Gesture::DragStartSecondary => 3,
        Gesture::DragPrimary => 4,
        Gesture::DragSecondary => 5,
        Gesture::DragStopPrimary => 6,
    }
}

/// Whether no handler before the `k`-th (from the `from`-th on) that ends
/// the frame's handling had its event happen.
pub open spec fn unpreempted(ev: PointerEvents, from: int, k: int) -> bool {
    forall|j: int| from <= j < k && j != 4 ==> !#[trigger] ev.happened(j)
}

/// Which handlers run in a frame, stated handler by handler: a handler runs
/// exactly when its event happened and no earlier handler that ends the
/// frame ran; they run in order; and a handler other than `DragPrimary` is
/// the last to run.
pub proof fn lemma_handled_from(ev: PointerEvents, from: int)
    requires
        0 <= from <= 7,
    ensures
        forall|k: int|
            from <= k < 7 && ev.happened(k) && unpreempted(ev, from, k) ==> handled_from(ev, from).contains(
                #[trigger] gesture_at(k),
            ),
        forall|i: int|
            0 <= i < handled_from(ev, from).len() ==> {
                let k = gesture_index(#[trigger] handled_from(ev, from)[i]);
                &&& from <= k < 7
                &&& ev.happened(k)
                &&& unpreempted(ev, from, k)
            },
        forall|i: int, j: int|
            0 <= i < j < handled_from(ev, from).len() ==> gesture_index(#[trigger] handled_from(ev, from)[i])
                < gesture_index(#[trigger] handled_from(ev, from)[j]),
        forall|i: int|
            0 <= i < handled_from(ev, from).len() - 1 ==> #[trigger] handled_from(ev, from)[i]
                == Gesture::DragPrimary,
    decreases 7 - from,
{
    if from < 7 {
        lemma_handled_from(ev, from + 1);
        let rest = handled_from(ev, from + 1);
        let here = handled_from(ev, from);
        assert(gesture_index(gesture_at(from)) == from);
        if ev.happened(from) {
            if from == 4 {
                assert(here == seq![gesture_at(from)] + rest);
                assert forall|k: int|
                    from <= k < 7 && ev.happened(k) && unpreempted(ev, from, k) implies here.contains(
                    #[trigger] gesture_at(k),
                ) by {
                    if k == from {
                        assert(here[0] == gesture_at(k));
                    } else {
                        assert(unpreempted(ev, from + 1, k));
                        let i = choose|i: int| 0 <= i < rest.len() && rest[i] == gesture_at(k);
                        assert(here[i + 1] == gesture_at(k));
                    }
                }
                assert forall|i: int| 0 <= i < here.len() implies {
                    let k = gesture_index(#[trigger] here[i]);
                    &&& from <= k < 7
                    &&& ev.happened(k)
                    &&& unpreempted(ev, from, k)
                } by {
                    if i > 0 {
                        assert(here[i] == rest[i - 1]);
                    }
                }
                assert forall|i: int, j: int| 0 <= i < j < here.len() implies gesture_index(
                    #[trigger] here[i],
                ) < gesture_index(#[trigger] here[j]) by {
                    assert(here[j] == rest[j - 1]);
                    if i > 0 {
                        assert(here[i] == rest[i - 1]);
                    }
                }
                assert forall|i: int| 0 <= i < here.len() - 1 implies #[trigger] here[i]
                    == Gesture::DragPrimary by {
                    if i > 0 {
                        assert(here[i] == rest[i - 1]);
                    }
                }
            } else {
                assert(here == seq![gesture_at(from)]);
                assert forall|k: int|
                    from <= k < 7 && ev.happened(k) && unpreempted(ev, from, k) implies here.contains(
                    #[trigger] gesture_at(k),
                ) by {
                    if k > from {
                        assert(!ev.happened(from));
                    }
                    assert(here[0] == gesture_at(k));
                }
            }
        } else {
            assert forall|k: int|
                from <= k < 7 && ev.happened(k) && unpreempted(ev, from, k) implies here.contains(
                #[trigger] gesture_at(k),
            ) by {
                assert(unpreempted(ev, from + 1, k));
            }
        }
    }
}

/// The handlers that run for one frame of pointer events, in order.
pub fn gestures_to_handle(ev: PointerEvents) -> (handled: Vec<Gesture>)
    ensures
        handled@ == handled_from(ev, 0),
        forall|k: int|
            0 <= k < 7 && ev.happened(k) && unpreempted(ev, 0, k) ==> handled@.contains(
                #[trigger] gesture_at(k),
            ),
        forall|i: int|
            0 <= i < handled@.len() ==> ev.happened(gesture_index(#[trigger] handled@[i])) && unpreempted(
                ev,
                0,
                gesture_index(handled@[i]),
            ),
        forall|i: int, j: int|
            0 <= i < j < handled@.len() ==> gesture_index(#[trigger] handled@[i]) < gesture_index(
                #[trigger] handled@[j],
            ),
        forall|i: int| 0 <= i < handled@.len() - 1 ==> #[trigger] handled@[i] == Gesture::DragPrimary,
{
    proof {
        lemma_handled_from(ev, 0);
    }

    let flags: [bool; 7] = [
        ev.clicked_primary,
        ev.clicked_secondary,
        ev.drag_started_primary,
        ev.drag_started_secondary,
        ev.dragged_primary,
        ev.dragged_secondary,
        ev.drag_stopped_primary,
    ];
    let gestures: [Gesture; 7] = [
        Gesture::ClickPrimary,
        Gesture::ClickSecondary,
        Gesture::DragStartPrimary,
        Gesture::DragStartSecondary,
        Gesture::DragPrimary,
        Gesture::DragSecondary,
        Gesture::DragStopPrimary,
    ];
    let mut handled: Vec<Gesture> = Vec::new();
    let mut k: usize = 0;
    while k < 7
        invariant
            k <= 7,
            forall|j: int| 0 <= j < 7 ==> flags@[j] == ev.happened(j),
            forall|j: int| 0 <= j < 7 ==> gestures@[j] == gesture_at(j),
            handled@ + handled_from(ev, k as int) == handled_from(ev, 0),
        decreases 7 - k,
    {
        if flags[k] {
            handled.push(gestures[k]);
            if k != 4 {
                proof {
                    assert(handled_from(ev, k as int) == seq![gesture_at(k as int)]);
                    assert(handled_from(ev, 7) =~= Seq::<Gesture>::empty());
                    assert(handled@ + handled_from(ev, 7) =~= handled@);
                    lemma_handled_from(ev, 0);
                    assert(handled@ == handled_from(ev, 0));
                }
                return handled;
            }
            proof {
                assert(handled@ + handled_from(ev, k + 1) =~= handled@.drop_last() + handled_from(ev, k as int));
            }
        }
        k = k + 1;
    }
    proof {
        assert(handled@ + handled_from(ev, 7) =~= handled@);
    }
    handled
}

} // verus!
