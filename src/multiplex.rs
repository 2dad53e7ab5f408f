use vstd::prelude::*;

use crate::list::{lemma_turn_cover, lemma_turn_start, lemma_turn_step, turn, ListLike};

verus! {

/// Abstract state of a [`MemoryArrayList`]: the sub-lists, the mode, the
/// slot whose turn it is and the next index to read in each slot.
pub struct MemoryArrayListView<T> {
    pub lists: Seq<Seq<T>>,
    pub round_robin: bool,
    pub active: nat,
    pub positions: Seq<nat>,
}

impl<T> MemoryArrayListView<T> {
    /// One position per slot, none past its slot's end (in round-robin mode
    /// none at the end of a non-empty slot), and the active slot among the
    /// slots.
    pub open spec fn wf(self) -> bool {
        &&& self.positions.len() == self.lists.len()
        &&& (self.lists.len() == 0 ==> self.active == 0)
        &&& (self.lists.len() > 0 ==> self.active < self.lists.len())
        &&& forall|k: int| 0 <= k < self.lists.len() ==> #[trigger] self.positions[k] <= self.lists[k].len()
        &&& self.round_robin ==> forall|k: int|
            0 <= k < self.lists.len() && self.lists[k].len() > 0 ==> #[trigger] self.positions[k] < self.lists[k].len()
    }

    /// A fresh cursor: every slot at its start, slot 0 first.
    pub open spec fn fresh(lists: Seq<Seq<T>>, round_robin: bool) -> Self {
        MemoryArrayListView { lists, round_robin, active: 0, positions: Seq::new(lists.len(), |k: int| 0nat) }
    }

    /// Slot `k` still has a value at its position.
    pub open spec fn ready(self, k: int) -> bool {
        self.positions[k] < self.lists[k].len()
    }

    /// No slot has a value left.
    pub open spec fn exhausted(self) -> bool {
        forall|k: int| 0 <= k < self.lists.len() ==> !#[trigger] self.ready(k)
    }

    /// The slot `d` turns after the active one.
    pub open spec fn slot_at(self, d: nat) -> nat {
        turn(self.active, d, self.lists.len())
    }

    /// The first ready slot at `d` or more turns after the active one.
    pub open spec fn first_ready_from(self, d: nat) -> Option<nat>
        decreases self.lists.len() - d,
    {
        if d >= self.lists.len() {
            None
        } else if self.ready(self.slot_at(d) as int) {
            Some(self.slot_at(d))
        } else {
            self.first_ready_from(d + 1)
        }
    }

    /// The slot that the next call reads: the first ready one in turn from
    /// the active slot, exhausted slots being passed over.
    pub open spec fn next_slot(self) -> Option<nat> {
        self.first_ready_from(0)
    }

    /// The state after one call of `next`: the slot read moves one on (back
    /// to its start in round-robin mode when it reaches its end) and the turn
    /// passes to the slot after it.
    pub open spec fn after_next(self) -> Self {
        match self.next_slot() {
            Some(s) => {
                let p = self.positions[s as int] + 1;
                MemoryArrayListView {
                    active: ((s + 1) as int % (self.lists.len() as int)) as nat,
                    positions: self.positions.update(
                        s as int,
                        if self.round_robin && p == self.lists[s as int].len() { 0 } else { p },
                    ),
                    ..self
                }
            },
            None => self,
        }
    }
}

proof fn lemma_first_ready_from<T>(v: MemoryArrayListView<T>, d: nat)
    requires
        v.wf(),
        v.lists.len() > 0,
        d <= v.lists.len(),
    ensures
        v.first_ready_from(d) matches Some(s) ==> s < v.lists.len() && v.ready(s as int),
        v.first_ready_from(d) is None <==> forall|e: nat| d <= e < v.lists.len() ==> !v.ready(#[trigger] v.slot_at(e) as int),
    decreases v.lists.len() - d,
{
    if d < v.lists.len() {
        lemma_first_ready_from(v, d + 1);
    }
}

/// The cursor hands out nothing exactly when every slot is exhausted.
pub proof fn lemma_ends_when_exhausted<T>(v: MemoryArrayListView<T>)
    requires
        v.wf(),
    ensures
        v.next_slot() is None <==> v.exhausted(),
        v.next_slot() matches Some(s) ==> s < v.lists.len() && v.ready(s as int),
{
    if v.lists.len() > 0 {
        lemma_first_ready_from(v, 0);
        if v.next_slot() is None {
            assert forall|k: int| 0 <= k < v.lists.len() implies !#[trigger] v.ready(k) by {
                lemma_turn_cover(v.active, k as nat, v.lists.len());
                let d: int = if k >= v.active { k - v.active } else { k + v.lists.len() - v.active };
                assert(!v.ready(v.slot_at(d as nat) as int));
            }
        } else {
            let s = v.next_slot().unwrap();
            assert(!v.ready(s as int) ==> !v.exhausted());
        }
    }
}

/// Once every slot is used up the cursor stays as it is and hands out
/// nothing on every later call.
pub proof fn lemma_exhausted_is_final<T>(v: MemoryArrayListView<T>)
    requires
        v.wf(),
        v.exhausted(),
    ensures
        v.next_slot() is None,
        v.after_next() == v,
{
    lemma_ends_when_exhausted(v);
}

/// In round-robin mode a cursor with at least one non-empty slot never
/// runs out: every call hands out a value.
pub proof fn lemma_round_robin_never_ends<T>(v: MemoryArrayListView<T>, k: int)
    requires
        v.wf(),
        v.round_robin,
        0 <= k < v.lists.len(),
        v.lists[k].len() > 0,
    ensures
        v.next_slot() is Some,
        v.after_next().wf(),
        v.after_next().lists == v.lists,
        v.after_next().round_robin,
{
    lemma_ends_when_exhausted(v);
    assert(v.ready(k));
    lemma_after_next_wf(v);
}

/// A call keeps the cursor well formed.
proof fn lemma_after_next_wf<T>(v: MemoryArrayListView<T>)
    requires
        v.wf(),
    ensures
        v.after_next().wf(),
{
    lemma_ends_when_exhausted(v);
    if let Some(s) = v.next_slot() {
        vstd::arithmetic::div_mod::lemma_mod_pos_bound((s + 1) as int, v.lists.len() as int);
        if s + 1 < v.lists.len() {
            vstd::arithmetic::div_mod::lemma_small_mod((s + 1) as nat, v.lists.len());
        }
    }
}

/// A cursor that takes one value from each of several vectors in turn.
///
/// A slot that has no value left is passed over within the same call rather
/// than costing a turn, so the cursor hands out nothing only once every slot
/// is used up; without round-robin that state is final, since positions only
/// grow. Exhaustion is read off the positions, so no separate count of
/// finished slots is kept.
pub struct MemoryArrayList<T: Clone> {
    lists: Vec<Vec<T>>,
    round_robin: bool,
    cur_list_index: usize,
    line_indexes: Vec<usize>,
}

impl<T: Clone> View for MemoryArrayList<T> {
    type V = MemoryArrayListView<T>;

    closed spec fn view(&self) -> MemoryArrayListView<T> {
        MemoryArrayListView {
            lists: self.lists@.map_values(|l: Vec<T>| l@),
            round_robin: self.round_robin,
            active: self.cur_list_index as nat,
            positions: self.line_indexes@.map_values(|p: usize| p as nat),
        }
    }
}

impl<T: Clone> MemoryArrayList<T> {
    fn from_lists(mem_arr: Vec<Vec<T>>, round_robin: bool) -> (r: Self)
        ensures
            r@ == MemoryArrayListView::fresh(mem_arr@.map_values(|l: Vec<T>| l@), round_robin),
            r@.wf(),
    {
        let n = mem_arr.len();
        let mut line_indexes: Vec<usize> = Vec::new();
        let mut k: usize = 0;
        while k < n
            invariant
                k <= n,
                line_indexes@.len() == k,
                forall|j: int| 0 <= j < k ==> line_indexes@[j] == 0,
            decreases n - k,
        {
            line_indexes.push(0);
            k = k + 1;
        }
        let r = MemoryArrayList { lists: mem_arr, round_robin, cur_list_index: 0, line_indexes };
        assert(r@.positions =~= Seq::new(n as nat, |j: int| 0nat));
        r
    }

    /// A cursor over `mem_arr` that ends once every vector is used up.
    pub fn new(mem_arr: Vec<Vec<T>>) -> (r: Self)
        ensures
            r@ == MemoryArrayListView::fresh(mem_arr@.map_values(|l: Vec<T>| l@), false),
            r@.wf(),
    {
        Self::from_lists(mem_arr, false)
    }

    /// A cursor over `mem_arr` in which each vector starts over at its end.
    pub fn new_round_robin(mem_arr: Vec<Vec<T>>) -> (r: Self)
        ensures
            r@ == MemoryArrayListView::fresh(mem_arr@.map_values(|l: Vec<T>| l@), true),
            r@.wf(),
    {
        Self::from_lists(mem_arr, true)
    }

    /// Hands out a clone of the next value of the first slot, in turn from
    /// the active one, that has a value left, and passes the turn to the slot
    /// after it. Gives nothing once every slot is used up.
    pub fn next(&mut self) -> (r: Option<T>)
        requires
            old(self)@.wf(),
        ensures
            final(self)@.wf(),
            final(self)@ == old(self)@.after_next(),
            r is None <==> old(self)@.exhausted(),
            r.is_some() == old(self)@.next_slot().is_some(),
            old(self)@.next_slot() matches Some(s) ==> (r matches Some(x) && cloned(
                old(self)@.lists[s as int][old(self)@.positions[s as int] as int],
                x,
            )),
    {
        proof {
            lemma_ends_when_exhausted(self@);
        }
        let n = self.lists.len();
        if n == 0 {
            return None;
        }
        let ghost v = self@;
        let mut d: usize = 0;
        let mut k: usize = self.cur_list_index;
        proof {
            lemma_turn_start(k as nat, n as nat);
        }
        while d < n
            invariant
                v == self@,
                v == old(self)@,
                v.wf(),
                n == self.lists.len(),
                n > 0,
                d <= n,
                k < n,
                k == v.slot_at(d as nat),
                v.first_ready_from(0) == v.first_ready_from(d as nat),
            decreases n - d,
        {
            let p = self.line_indexes[k];
            if p < self.lists[k].len() {
                proof {
                    assert(v.ready(k as int));
                    assert(v.first_ready_from(d as nat) == Some(k as nat));
                }
                let val = self.lists[k][p].clone();
                let next_p = if self.round_robin && p + 1 == self.lists[k].len() { 0 } else { p + 1 };
                self.line_indexes.set(k, next_p);
                self.cur_list_index = if k + 1 == n { 0 } else { k + 1 };
                proof {
                    if k + 1 < n {
                        vstd::arithmetic::div_mod::lemma_small_mod((k + 1) as nat, n as nat);
                    } else {
                        vstd::arithmetic::div_mod::lemma_mod_self_0(n as int);
                    }
                    assert(self@.positions =~= v.after_next().positions);
                    assert(self@.lists =~= v.lists);
                }
                return Some(val);
            }
            proof {
                lemma_turn_step(v.active, d as nat, n as nat);
            }
            k = if k + 1 == n { 0 } else { k + 1 };
            d = d + 1;
        }
        None
    }
}

impl<T: Clone> ListLike for MemoryArrayList<T> {
    type Item = T;

    open spec fn valid(&self) -> bool {
        self@.wf()
    }

    fn iter(&mut self) -> (r: Option<T>)
        ensures
            final(self)@ == old(self)@.after_next(),
            r is None <==> old(self)@.exhausted(),
            r.is_some() == old(self)@.next_slot().is_some(),
            old(self)@.next_slot() matches Some(s) ==> (r matches Some(x) && cloned(
                old(self)@.lists[s as int][old(self)@.positions[s as int] as int],
                x,
            )),
    {
        self.next()
    }
}

} // verus!
