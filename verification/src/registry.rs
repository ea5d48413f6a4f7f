//! The registry of authenticated clients and the round-robin selection
//! policy: an ordered list of client records and a monotonic counter, where
//! the record at `counter mod len` serves the next user connection.

use vstd::arithmetic::div_mod::lemma_add_mod_noop;
use vstd::arithmetic::div_mod::lemma_div_of0;
use vstd::arithmetic::div_mod::lemma_fundamental_div_mod;
use vstd::arithmetic::div_mod::lemma_fundamental_div_mod_converse_div;
use vstd::arithmetic::div_mod::lemma_fundamental_div_mod_converse_mod;
use vstd::arithmetic::div_mod::lemma_mod_add_multiples_vanish;
use vstd::arithmetic::div_mod::lemma_mod_division_less_than_divisor;
use vstd::arithmetic::div_mod::lemma_mod_sub_multiples_vanish;
use vstd::arithmetic::div_mod::lemma_small_mod;
use vstd::prelude::*;

verus! {

/// The position of the first record carrying `id`, if any.
pub open spec fn spec_find_id<T>(s: Seq<(u32, T)>, id: u32) -> Option<int>
    decreases s.len(),
{
    if s.len() == 0 {
        None
    } else if s[0].0 == id {
        Some(0)
    } else {
        match spec_find_id(s.drop_first(), id) {
            Some(i) => Some(i + 1),
            None => None,
        }
    }
}

/// What `spec_find_id` finds is the first match: a found position carries
/// the id and nothing before it does; nothing is found only when no record
/// carries the id.
pub proof fn lemma_find_id_first<T>(s: Seq<(u32, T)>, id: u32)
    ensures
        match spec_find_id(s, id) {
            Some(i) => {
                &&& 0 <= i < s.len()
                &&& s[i].0 == id
                &&& forall|q: int| 0 <= q < i ==> s[q].0 != id
            },
            None => forall|q: int| 0 <= q < s.len() ==> s[q].0 != id,
        },
    decreases s.len(),
{
    if s.len() > 0 && s[0].0 != id {
        lemma_find_id_first(s.drop_first(), id);
        assert forall|q: int| 0 <= q < s.len() && q >= 1 implies s[q] == s.drop_first()[q - 1] by {}
    }
}

/// The registry: the ordered list of client records, each under its id, and
/// the selection counter.
pub struct ClientManager<T> {
    clients: Vec<(u32, T)>,
    index: u64,
}

impl<T> ClientManager<T> {
    /// The registered records in registration order.
    pub closed spec fn spec_clients(self) -> Seq<(u32, T)> {
        self.clients@
    }

    /// The selection counter.
    pub closed spec fn spec_index(self) -> u64 {
        self.index
    }

    /// Creates a new empty registry.
    pub fn new() -> (r: ClientManager<T>)
        ensures
            r.spec_clients() == Seq::<(u32, T)>::empty(),
            r.spec_index() == 0,
    {
        ClientManager { clients: Vec::new(), index: 0 }
    }

    /// Round-robin selection: picks the record at `counter mod len` and
    /// advances the counter, or picks nothing from an empty registry.
    pub fn get(&mut self) -> (r: Option<&T>)
        ensures
            final(self).spec_clients() == old(self).spec_clients(),
            match r {
                Some(c) => {
                    &&& old(self).spec_clients().len() > 0
                    &&& *c == old(self).spec_clients()[old(self).spec_index() as int % old(
                        self,
                    ).spec_clients().len() as int].1
                    &&& final(self).spec_index() == (if old(self).spec_index() == u64::MAX {
                        0u64
                    } else {
                        (old(self).spec_index() + 1) as u64
                    })
                },
                None => {
                    &&& old(self).spec_clients().len() == 0
                    &&& final(self).spec_index() == old(self).spec_index()
                },
            },
    {
        let n = self.clients.len();
        if n == 0 {
            return None;
        }

        let i = (self.index % (n as u64)) as usize;
        proof {
            lemma_mod_division_less_than_divisor(self.index as int, n as int);
        }
        self.index = if self.index == u64::MAX {
            0
        } else {
            self.index + 1
        };

        let entry = &self.clients[i];
        Some(&entry.1)
    }

    /// Registers a record and returns the new number of registered clients.
    pub fn add(&mut self, id: u32, client: T) -> (count: usize)
        ensures
            final(self).spec_clients() == old(self).spec_clients().push((id, client)),
            final(self).spec_index() == old(self).spec_index(),
            count == final(self).spec_clients().len(),
    {
        self.clients.push((id, client));
        self.clients.len()
    }

    /// Deregisters the first record carrying `id`, if any, and returns the
    /// new number of registered clients.
    pub fn remove_con(&mut self, id: u32) -> (count: usize)
        ensures
            final(self).spec_index() == old(self).spec_index(),
            match spec_find_id(old(self).spec_clients(), id) {
                Some(i) => final(self).spec_clients() == old(self).spec_clients().remove(i),
                None => final(self).spec_clients() == old(self).spec_clients(),
            },
            count == final(self).spec_clients().len(),
    {
        let ghost orig = self.clients@;

        let n = self.clients.len();
        let mut i: usize = 0;
        while i < n
            invariant
                orig == old(self).spec_clients(),
                self.clients@ == orig,
                self.index == old(self).spec_index(),
                n == orig.len(),
                i <= n,
                forall|q: int| 0 <= q < i ==> orig[q].0 != id,
            decreases n - i,
        {
            if self.clients[i].0 == id {
                proof {
                    lemma_find_id_first(orig, id);
                    match spec_find_id(orig, id) {
                        Some(f) => {
                            assert(!(f < i) && !(i < f));
                        },
                        None => {
                            assert(orig[i as int].0 != id);
                        },
                    }
                }
                self.clients.remove(i);
                return self.clients.len();
            }
            i = i + 1;
        }
        proof {
            lemma_find_id_first(orig, id);
            if let Some(f) = spec_find_id(orig, id) {
                assert(orig[f].0 != id);
            }
        }

        self.clients.len()
    }
}

impl<T> Default for ClientManager<T> {
    /// An empty registry.
    fn default() -> (r: ClientManager<T>)
        ensures
            r.spec_clients() == Seq::<(u32, T)>::empty(),
            r.spec_index() == 0,
    {
        ClientManager::new()
    }
}

/// The slot that round-robin selection picks for the `i`-th call of `get`
/// after the counter stood at `c0`, among `n` registered clients (`get`
/// picks `counter mod n` and then advances the counter).
pub open spec fn chosen_slot(c0: nat, i: nat, n: nat) -> int
    recommends
        n > 0,
{
    ((c0 + i) as int) % (n as int)
}

/// How many of the first `k` selections after counter value `c0` fall on
/// slot `j`.
pub open spec fn times_chosen(c0: nat, k: nat, n: nat, j: nat) -> nat
    decreases k,
{
    if k == 0 {
        0
    } else {
        times_chosen(c0, (k - 1) as nat, n, j) + (if chosen_slot(c0, (k - 1) as nat, n) == j {
            1nat
        } else {
            0nat
        })
    }
}

/// How many numbers below `k` leave remainder `p` modulo `n`.
spec fn mod_hits(k: nat, n: nat, p: nat) -> nat
    decreases k,
{
    if k == 0 {
        0
    } else {
        mod_hits((k - 1) as nat, n, p) + (if ((k - 1) as int) % (n as int) == p {
            1nat
        } else {
            0nat
        })
    }
}

/// The first selection index whose slot is `j`.
spec fn slot_phase(c0: nat, j: nat, n: nat) -> int {
    ((j + n) - (c0 as int) % (n as int)) % (n as int)
}

/// A selection lands on slot `j` exactly when its index agrees with the
/// slot's phase modulo `n`.
proof fn lemma_slot_phase(c0: nat, i: nat, n: nat, j: nat)
    requires
        n > 0,
        j < n,
    ensures
        (chosen_slot(c0, i, n) == j) <==> ((i as int) % (n as int) == slot_phase(c0, j, n)),
{
    let ni = n as int;
    let a = (c0 as int) % ni;
    let b = (i as int) % ni;
    lemma_mod_division_less_than_divisor(c0 as int, ni);
    lemma_mod_division_less_than_divisor(i as int, ni);
    lemma_add_mod_noop(c0 as int, i as int, ni);
    assert(chosen_slot(c0, i, n) == (a + b) % ni);

    if j >= a {
        lemma_mod_add_multiples_vanish(j - a, ni);
        lemma_small_mod((j - a) as nat, n);
        assert(slot_phase(c0, j, n) == j - a);
    } else {
        lemma_small_mod((j + ni - a) as nat, n);
        assert(slot_phase(c0, j, n) == j + ni - a);
    }

    if a + b < ni {
        lemma_small_mod((a + b) as nat, n);
        assert((a + b) % ni == a + b);
    } else {
        lemma_mod_sub_multiples_vanish(a + b, ni);
        lemma_small_mod((a + b - ni) as nat, n);
        assert((a + b) % ni == a + b - ni);
    }
}

/// Counting selections of a slot is counting indices in its phase class.
proof fn lemma_times_is_mod_hits(c0: nat, k: nat, n: nat, j: nat)
    requires
        n > 0,
        j < n,
    ensures
        times_chosen(c0, k, n, j) == mod_hits(k, n, slot_phase(c0, j, n) as nat),
    decreases k,
{
    lemma_mod_division_less_than_divisor((j + n) - (c0 as int) % (n as int), n as int);
    if k > 0 {
        lemma_times_is_mod_hits(c0, (k - 1) as nat, n, j);
        lemma_slot_phase(c0, (k - 1) as nat, n, j);
    }
}

/// Exactly how often a remainder class is met below `k`: `k / n` times, and
/// once more when the class lies below `k mod n`.
proof fn lemma_mod_hits_exact(k: nat, n: nat, p: nat)
    requires
        n > 0,
        p < n,
    ensures
        mod_hits(k, n, p) == (k as int) / (n as int) + if (p as int) < (k as int) % (n as int) {
            1int
        } else {
            0int
        },
    decreases k,
{
    let ni = n as int;
    if k == 0 {
        lemma_div_of0(ni);
        lemma_small_mod(0, n);
    } else {
        lemma_mod_hits_exact((k - 1) as nat, n, p);
        let q = (k - 1) as int / ni;
        let r = (k - 1) as int % ni;
        lemma_mod_division_less_than_divisor((k - 1) as int, ni);
        lemma_fundamental_div_mod((k - 1) as int, ni);
        if r == ni - 1 {
            assert(k as int == (q + 1) * ni + 0) by (nonlinear_arith)
                requires
                    (k - 1) as int == q * ni + r,
                    r == ni - 1,
            ;
            lemma_fundamental_div_mod_converse_div(k as int, ni, q + 1, 0);
            lemma_fundamental_div_mod_converse_mod(k as int, ni, q + 1, 0);
        } else {
            assert(k as int == q * ni + (r + 1));
            lemma_fundamental_div_mod_converse_div(k as int, ni, q, r + 1);
            lemma_fundamental_div_mod_converse_mod(k as int, ni, q, r + 1);
        }
    }
}

/// Round-robin fairness: over any `k` consecutive selections from a stable
/// registry of `n` clients, every slot is chosen either `⌊k/n⌋` times or one
/// time more (the latter only when `n` does not divide `k`, so "one more" is
/// `⌈k/n⌉`).
pub proof fn lemma_round_robin_fairness(c0: nat, k: nat, n: nat, j: nat)
    requires
        n > 0,
        j < n,
    ensures
        times_chosen(c0, k, n, j) == (k as int) / (n as int) || times_chosen(c0, k, n, j) == (
        k as int) / (n as int) + 1,
        (k as int) % (n as int) == 0 ==> times_chosen(c0, k, n, j) == (k as int) / (n as int),
{
    lemma_times_is_mod_hits(c0, k, n, j);
    lemma_mod_division_less_than_divisor((j + n) - (c0 as int) % (n as int), n as int);
    lemma_mod_hits_exact(k, n, slot_phase(c0, j, n) as nat);
    lemma_mod_division_less_than_divisor(k as int, n as int);
}

} // verus!
