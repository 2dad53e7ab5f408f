use vstd::prelude::*;

use crate::error::IterManError;
use crate::list::ListLike;

verus! {

/// Abstract state of a [`MemoryList`]: the values it walks, whether it
/// starts over at the end, and the index it reads next.
pub struct MemoryListView<T> {
    pub items: Seq<T>,
    pub round_robin: bool,
    pub position: nat,
}

impl<T> MemoryListView<T> {
    /// The position never runs past the end of the items.
    pub open spec fn wf(self) -> bool {
        self.position <= self.items.len()
    }

    /// A cursor at the start of `items`.
    pub open spec fn fresh(items: Seq<T>, round_robin: bool) -> Self {
        MemoryListView { items, round_robin, position: 0 }
    }

    /// The index whose value the next call hands out, if any. In round-robin
    /// mode a position at the end is taken as the start.
    pub open spec fn next_index(self) -> Option<nat> {
        if self.position < self.items.len() {
            Some(self.position)
        } else if self.round_robin && self.items.len() > 0 {
            Some(0)
        } else {
            None
        }
    }

    /// The state after one call of `next`.
    pub open spec fn after_next(self) -> Self {
        match self.next_index() {
            Some(i) => MemoryListView { position: i + 1, ..self },
            None => self,
        }
    }

    /// The state after a seek to `index`: moved when the index is in bounds,
    /// unchanged otherwise.
    pub open spec fn seek_result(self, index: nat) -> Self {
        if index < self.items.len() {
            MemoryListView { position: index, ..self }
        } else {
            self
        }
    }

    /// The indices read by `k` successive calls of `next`, `None` for a call
    /// that hands out nothing.
    pub open spec fn indices(self, k: nat) -> Seq<Option<nat>>
        decreases k,
    {
        if k == 0 {
            Seq::empty()
        } else {
            seq![self.next_index()] + self.after_next().indices((k - 1) as nat)
        }
    }
}

/// Without round-robin, the calls from position `p` read `p, p+1, ...` up to
/// the end and nothing after it.
proof fn lemma_indices_plain<T>(v: MemoryListView<T>, k: nat)
    requires
        v.wf(),
        !v.round_robin,
    ensures
        v.indices(k).len() == k,
        forall|i: int|
            0 <= i < k ==> #[trigger] v.indices(k)[i] == (if v.position + i < v.items.len() {
                Some((v.position + i) as nat)
            } else {
                None::<nat>
            }),
    decreases k,
{
    if k > 0 {
        let w = v.after_next();
        lemma_indices_plain(w, (k - 1) as nat);
        assert forall|i: int| 0 <= i < k implies #[trigger] v.indices(k)[i] == (if v.position + i
            < v.items.len() {
            Some((v.position + i) as nat)
        } else {
            None::<nat>
        }) by {
            if i > 0 {
                assert(v.indices(k)[i] == w.indices((k - 1) as nat)[i - 1]);
            }
        }
    }
}

/// In round-robin mode over a non-empty sequence, the calls from position
/// `p` read `p, p+1, ...` modulo the length.
proof fn lemma_indices_cycle<T>(v: MemoryListView<T>, k: nat)
    requires
        v.wf(),
        v.round_robin,
        v.items.len() > 0,
    ensures
        v.indices(k).len() == k,
        forall|i: int|
            0 <= i < k ==> #[trigger] v.indices(k)[i] == Some(((v.position + i) % (v.items.len() as int)) as nat),
    decreases k,
{
    let len = v.items.len() as int;
    if k > 0 {
        let w = v.after_next();
        lemma_indices_cycle(w, (k - 1) as nat);
        let q: int = if v.position < len { v.position as int } else { 0 };
        assert(w.position == q + 1);
        assert forall|i: int| 0 <= i < k implies #[trigger] v.indices(k)[i] == Some(
            ((v.position + i) % len) as nat,
        ) by {
            if v.position == len {
                vstd::arithmetic::div_mod::lemma_mod_add_multiples_vanish(i, len);
            }
            if i > 0 {
                assert(v.indices(k)[i] == w.indices((k - 1) as nat)[i - 1]);
            }
            vstd::arithmetic::div_mod::lemma_small_mod(q as nat, len as nat);
        }
    }
}

/// Without round-robin, a full drain of a fresh list reads each index of
/// `items` once, in order (so call `i` hands out a clone of `items[i]`), and
/// every call after the last one hands out nothing.
pub proof fn lemma_drain_in_order<T>(items: Seq<T>, k: nat)
    ensures
        MemoryListView::fresh(items, false).indices(k).len() == k,
        forall|i: int|
            0 <= i < k ==> #[trigger] MemoryListView::fresh(items, false).indices(k)[i] == (if i
                < items.len() {
                Some(i as nat)
            } else {
                None::<nat>
            }),
{
    lemma_indices_plain(MemoryListView::fresh(items, false), k);
}

/// In round-robin mode over a non-empty sequence of length `L`, the first
/// `n * L` calls of a fresh list read the sequence `n` times over.
pub proof fn lemma_round_robin_repeats<T>(items: Seq<T>, n: nat)
    requires
        items.len() > 0,
    ensures
        MemoryListView::fresh(items, true).indices(n * items.len()) =~= Seq::new(
            n * items.len(),
            |i: int| Some((i % (items.len() as int)) as nat),
        ),
{
    lemma_indices_cycle(MemoryListView::fresh(items, true), n * items.len());
}

/// In round-robin mode over an empty sequence, no call hands out anything.
pub proof fn lemma_round_robin_empty<T>(k: nat)
    ensures
        MemoryListView::fresh(Seq::<T>::empty(), true).indices(k) =~= Seq::new(k, |i: int| None::<nat>),
    decreases k,
{
    if k > 0 {
        lemma_round_robin_empty::<T>((k - 1) as nat);
    }
}

/// A seek to an index in bounds makes the next call read that index and
/// leave the position just past it.
pub proof fn lemma_seek_then_next<T>(v: MemoryListView<T>, index: nat)
    requires
        index < v.items.len(),
    ensures
        v.seek_result(index).next_index() == Some(index),
        v.seek_result(index).after_next().position == index + 1,
{
}

/// A seek to the current position leaves the list as it was, so everything
/// it hands out afterwards is the same.
pub proof fn lemma_seek_current_is_noop<T>(v: MemoryListView<T>, k: nat)
    ensures
        v.seek_result(v.position) == v,
        v.seek_result(v.position).indices(k) == v.indices(k),
{
}

/// A cursor over a vector of values, optionally starting over at the end.
pub struct MemoryList<T: Clone> {
    vec: Vec<T>,
    round_robin: bool,
    line_index: usize,
}

impl<T: Clone> View for MemoryList<T> {
    type V = MemoryListView<T>;

    closed spec fn view(&self) -> MemoryListView<T> {
        MemoryListView { items: self.vec@, round_robin: self.round_robin, position: self.line_index as nat }
    }
}

impl<T: Clone> MemoryList<T> {
    #[verifier::type_invariant]
    closed spec fn inv(&self) -> bool {
        self.line_index <= self.vec.len()
    }

    /// A list over `vec` that ends after its last value.
    pub fn new(vec: Vec<T>) -> (r: Self)
        ensures
            r@ == MemoryListView::fresh(vec@, false),
    {
        MemoryList { vec, round_robin: false, line_index: 0 }
    }

    /// A list over `vec` that starts over after its last value.
    pub fn new_round_robin(vec: Vec<T>) -> (r: Self)
        ensures
            r@ == MemoryListView::fresh(vec@, true),
    {
        MemoryList { vec, round_robin: true, line_index: 0 }
    }

    /// Seeks to `line_index` on a best-effort basis: an index out of bounds
    /// leaves the list where it was.
    pub fn with_seek_to(self, line_index: usize) -> (r: Self)
        ensures
            r@ == self@.seek_result(line_index as nat),
    {
        let mut list = self;
        let _ = list.seek(line_index);
        list
    }

    /// Moves to `line_index` if it is below the length of the list.
    pub fn seek(&mut self, line_index: usize) -> (r: Result<usize, IterManError>)
        ensures
            final(self)@ == old(self)@.seek_result(line_index as nat),
            line_index < old(self)@.items.len() ==> r == Ok::<usize, IterManError>(line_index),
            line_index >= old(self)@.items.len() ==> r == Err::<usize, IterManError>(
                IterManError::MemoryOutOfBounds { line_index, max_len: old(self)@.items.len() as usize },
            ),
    {
        let len = self.vec.len();
        if line_index < len {
            self.line_index = line_index;
            Ok(line_index)
        } else {
            Err(IterManError::MemoryOutOfBounds { line_index, max_len: len })
        }
    }

    /// The index that the next call of `next` reads.
    pub fn line_index(&self) -> (r: usize)
        ensures
            r == self@.position,
    {
        self.line_index
    }

    /// Hands out a clone of the value at the current index and moves past it;
    /// in round-robin mode a list at its end starts over first.
    pub fn next(&mut self) -> (r: Option<T>)
        ensures
            final(self)@ == old(self)@.after_next(),
            r.is_some() == old(self)@.next_index().is_some(),
            r.is_some() ==> cloned(old(self)@.items[old(self)@.next_index().unwrap() as int], r.unwrap()),
    {
        proof {
            use_type_invariant(&*self);
        }
        let len = self.vec.len();
        if self.round_robin && self.line_index >= len {
            self.line_index = 0;
        }
        if self.line_index < len {
            let val = self.vec[self.line_index].clone();
            self.line_index = self.line_index + 1;
            Some(val)
        } else {
            None
        }
    }
}

impl<T: Clone> ListLike for MemoryList<T> {
    type Item = T;

    open spec fn valid(&self) -> bool {
        true
    }

    fn iter(&mut self) -> (r: Option<T>)
        ensures
            final(self)@ == old(self)@.after_next(),
            r.is_some() == old(self)@.next_index().is_some(),
            r.is_some() ==> cloned(old(self)@.items[old(self)@.next_index().unwrap() as int], r.unwrap()),
    {
        self.next()
    }
}

} // verus!
