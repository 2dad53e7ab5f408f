use vstd::prelude::*;

verus! {

/// The one capability shared by every cursor: hand out the next item, or
/// `None` once no item is available.
pub trait ListLike {
    type Item;

    /// The cursor's own consistency condition, kept by every call.
    spec fn valid(&self) -> bool;

    fn iter(&mut self) -> (r: Option<Self::Item>)
        requires
            old(self).valid(),
        ensures
            final(self).valid(),
    ;
}

/// The slot whose turn comes `d` turns after slot `active`, among `n`.
pub open spec fn turn(active: nat, d: nat, n: nat) -> nat {
    ((active + d) as int % (n as int)) as nat
}

/// One more turn moves to the next slot, and from the last back to the first.
pub proof fn lemma_turn_step(active: nat, d: nat, n: nat)
    requires
        n > 0,
    ensures
        turn(active, d, n) < n,
        turn(active, d + 1, n) == (if turn(active, d, n) + 1 == n { 0 } else { turn(active, d, n) + 1 }),
{
    let m = n as int;
    let x = (active + d) as int;
    let r = x % m;
    vstd::arithmetic::div_mod::lemma_fundamental_div_mod(x, m);
    vstd::arithmetic::div_mod::lemma_mod_pos_bound(x, m);
    vstd::arithmetic::div_mod::lemma_mod_multiples_vanish(x / m, r + 1, m);
    assert(x + 1 == m * (x / m) + (r + 1));
    if r + 1 == m {
        vstd::arithmetic::div_mod::lemma_mod_self_0(m);
    } else {
        vstd::arithmetic::div_mod::lemma_small_mod((r + 1) as nat, n);
    }
}

/// Within one round from slot `active`, every slot has its turn.
pub proof fn lemma_turn_cover(active: nat, k: nat, n: nat)
    requires
        active < n,
        k < n,
    ensures
        turn(active, (if k >= active { k - active } else { k + n - active }) as nat, n) == k,
{
    if k >= active {
        vstd::arithmetic::div_mod::lemma_small_mod(k, n);
    } else {
        vstd::arithmetic::div_mod::lemma_mod_add_multiples_vanish(k as int, n as int);
        vstd::arithmetic::div_mod::lemma_small_mod(k, n);
    }
}

/// The first turn is the active slot itself.
pub proof fn lemma_turn_start(active: nat, n: nat)
    requires
        active < n,
    ensures
        turn(active, 0, n) == active,
{
    vstd::arithmetic::div_mod::lemma_small_mod(active, n);
}

} // verus!
