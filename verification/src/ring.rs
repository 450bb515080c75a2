//! A bounded ring with overwrite-on-push and non-consuming search: pushing
//! always succeeds and overwrites the oldest slot once the ring is full;
//! slots never written hold the default value.

use vstd::prelude::*;
use vstd::std_specs::cmp::PartialEqSpec;

verus! {

/// `CAP` slots and the position of the next push.
#[derive(Debug)]
pub struct Ring<T, const CAP: usize> {
    slots: Vec<T>,
    head: usize,
}

/// The slots after pushing `items` into a fresh ring of `cap` slots filled
/// with `d`: push `k` writes slot `k mod cap`.
pub open spec fn ring_after<T>(d: T, cap: nat, items: Seq<T>) -> Seq<T>
    decreases items.len(),
{
    if items.len() == 0 {
        Seq::new(cap, |i: int| d)
    } else {
        ring_after(d, cap, items.drop_last()).update((items.len() - 1) % (cap as int), items.last())
    }
}

impl<T: Copy + PartialEq + Default, const CAP: usize> Ring<T, CAP> {
    /// The slots, in index order.
    pub closed spec fn slots_spec(&self) -> Seq<T> {
        self.slots@
    }

    /// The position counter of the next push (wrapping).
    pub closed spec fn head_spec(&self) -> usize {
        self.head
    }

    /// The ring has its `CAP` slots.
    pub closed spec fn wf(&self) -> bool {
        self.slots@.len() == CAP
    }

    /// A ring of `CAP` slots holding `T::default()`.
    pub fn new() -> (r: Self)
        ensures
            r.wf(),
            r.head_spec() == 0,
            exists|d: T| call_ensures(T::default, (), d) && r.slots_spec() == Seq::new(CAP as nat, |i: int| d),
    {
        let d = T::default();
        let mut slots: Vec<T> = Vec::new();
        let mut i: usize = 0;
        while i < CAP
            invariant
                i <= CAP,
                slots@ == Seq::new(i as nat, |k: int| d),
            decreases CAP - i,
        {
            slots.push(d);
            proof {
                assert(slots@ =~= Seq::new((i + 1) as nat, |k: int| d));
            }
            i = i + 1;
        }
        Ring { slots, head: 0 }
    }

    /// Pushes `item` into the slot at the head (modulo `CAP`), overwriting
    /// what was there; the head advances, wrapping at `usize::MAX`.
    pub fn push(&mut self, item: T)
        requires
            CAP > 0,
            old(self).wf(),
        ensures
            final(self).wf(),
            final(self).head_spec() == old(self).head_spec().wrapping_add(1),
            final(self).slots_spec() == old(self).slots_spec().update(
                (old(self).head_spec() % CAP) as int,
                item,
            ),
    {
        let idx = self.head % CAP;
        self.head = self.head.wrapping_add(1);
        self.slots.set(idx, item);
    }

    /// Whether some slot holds `item`.
    pub fn contains(&self, item: T) -> (r: bool)
        requires
            self.wf(),
        ensures
            T::obeys_eq_spec() ==> (r <==> exists|i: int| 0 <= i < CAP && self.slots_spec()[i].eq_spec(&item)),
    {
        let mut i: usize = 0;
        while i < CAP
            invariant
                i <= CAP,
                self.slots@.len() == CAP,
                T::obeys_eq_spec() ==> forall|k: int| 0 <= k < i ==> !self.slots@[k].eq_spec(&item),
            decreases CAP - i,
        {
            let found = self.slots[i] == item;
            if found {
                proof {
                    if T::obeys_eq_spec() {
                        assert(self.slots_spec()[i as int].eq_spec(&item));
                    }
                }
                return true;
            }
            i = i + 1;
        }
        false
    }
}

impl<T: Copy + PartialEq + Default, const CAP: usize> Default for Ring<T, CAP> {
    fn default() -> (r: Self)
        ensures
            r.wf(),
            r.head_spec() == 0,
    {
        Ring::new()
    }
}

proof fn lemma_distinct_residues(j: int, n: int, cap: int)
    requires
        cap > 0,
        0 <= j < n,
        n - j < cap,
    ensures
        j % cap != n % cap,
{
    vstd::arithmetic::div_mod::lemma_fundamental_div_mod(j, cap);
    vstd::arithmetic::div_mod::lemma_fundamental_div_mod(n, cap);
    let qj = j / cap;
    let qn = n / cap;
    if j % cap == n % cap {
        assert((qn - qj) * cap == n - j) by (nonlinear_arith)
            requires
                j == cap * qj + j % cap,
                n == cap * qn + n % cap,
                j % cap == n % cap,
        ;
        assert(false) by (nonlinear_arith)
            requires
                (qn - qj) * cap == n - j,
                0 < n - j < cap,
                cap > 0,
        ;
    }
}

/// After `items` are pushed into a fresh ring, each of the last `cap` pushes
/// sits in slot `index mod cap`, and slots never reached still hold the
/// default.
pub proof fn lemma_ring_slots<T>(d: T, cap: nat, items: Seq<T>)
    requires
        cap > 0,
    ensures
        ring_after(d, cap, items).len() == cap,
        forall|j: int|
            #![trigger items[j]]
            0 <= j < items.len() && items.len() - cap <= j ==> ring_after(d, cap, items)[j % (cap as int)]
                == items[j],
        forall|i: int| items.len() <= i < cap ==> #[trigger] ring_after(d, cap, items)[i] == d,
    decreases items.len(),
{
    if items.len() > 0 {
        let prev = items.drop_last();
        let n = prev.len() as int;
        lemma_ring_slots(d, cap, prev);
        let ring = ring_after(d, cap, prev);
        assert forall|j: int|
            #![trigger items[j]]
            0 <= j < items.len() && items.len() - cap <= j implies ring_after(d, cap, items)[j % (cap as int)]
            == items[j] by {
            if j < n {
                lemma_distinct_residues(j, n, cap as int);
                assert(prev[j] == items[j]);
            }
        }
        assert forall|i: int| items.len() <= i < cap implies #[trigger] ring_after(d, cap, items)[i] == d by {
            vstd::arithmetic::div_mod::lemma_small_mod(n as nat, cap);
        }
    }
}

/// What a ring holds after `items` were pushed into it fresh: exactly the
/// last `cap` items pushed, and, while some slot was never written, the
/// default.
pub proof fn law_ring_holds_recent_pushes<T>(d: T, cap: nat, items: Seq<T>, x: T)
    requires
        cap > 0,
    ensures
        ring_after(d, cap, items).contains(x) <==> ((exists|j: int|
            0 <= j < items.len() && items.len() - cap <= j && #[trigger] items[j] == x) || (items.len() < cap
            && x == d)),
{
    let n = items.len() as int;
    let c = cap as int;
    let ring = ring_after(d, cap, items);
    lemma_ring_slots(d, cap, items);
    if ring.contains(x) {
        let i = choose|i: int| 0 <= i < ring.len() && ring[i] == x;
        if n < c {
            if i < n {
                vstd::arithmetic::div_mod::lemma_small_mod(i as nat, cap);
                assert(items[i] == x);
            }
        } else {
            let q = (n - 1 - i) / c;
            vstd::arithmetic::div_mod::lemma_fundamental_div_mod(n - 1 - i, c);
            let j = i + c * q;
            assert(0 <= (n - 1 - i) % c < c) by {
                vstd::arithmetic::div_mod::lemma_mod_bound(n - 1 - i, c);
            }
            assert(j <= n - 1 && j > n - 1 - c) by (nonlinear_arith)
                requires
                    n - 1 - i == c * q + (n - 1 - i) % c,
                    0 <= (n - 1 - i) % c < c,
                    j == i + c * q,
            ;
            assert(j == q * c + i) by (nonlinear_arith)
                requires
                    j == i + c * q,
            ;
            assert(j % c == i) by {
                vstd::arithmetic::div_mod::lemma_fundamental_div_mod_converse(j, c, q, i);
            }
            assert(items[j] == x);
        }
    }
    if exists|j: int| 0 <= j < items.len() && items.len() - cap <= j && #[trigger] items[j] == x {
        let j = choose|j: int| 0 <= j < items.len() && items.len() - cap <= j && #[trigger] items[j] == x;
        vstd::arithmetic::div_mod::lemma_mod_bound(j, c);
        assert(ring[j % c] == x);
    }
    if n < c && x == d {
        assert(ring[n] == d);
    }
}

/// Pushing into a ring that holds the fresh state for `items`, while the
/// head has not wrapped, gives the fresh state for `items` plus the item.
pub proof fn law_push_extends_history<T>(d: T, cap: nat, items: Seq<T>, slots: Seq<T>, x: T)
    requires
        cap > 0,
        slots == ring_after(d, cap, items),
    ensures
        slots.update(items.len() as int % (cap as int), x) == ring_after(d, cap, items.push(x)),
{
    assert(items.push(x).drop_last() =~= items);
}

} // verus!
