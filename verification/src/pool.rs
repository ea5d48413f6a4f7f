//! The paired connection pool: up to `max_cons` dialed connections to one
//! target, each split into a read half and a write half that are lent out
//! separately. A pair goes back into the available set only when both halves
//! have been reported back and both were valid; a pair any half of which was
//! invalidated is discarded and never offered again.

use vstd::prelude::*;
use vstd::slice::slice_index_get;

verus! {

/// Which half of a pooled connection a value is.
#[derive(Clone, Debug, PartialEq, Eq, Structural)]
pub enum ConnectionType {
    Read,
    Write,
}

/// The position of the first entry keyed by `id`, if any.
pub open spec fn spec_find_keyed<C>(s: Seq<(u64, C)>, id: u64) -> Option<int>
    decreases s.len(),
{
    if s.len() == 0 {
        None
    } else if s[0].0 == id {
        Some(0)
    } else {
        match spec_find_keyed(s.drop_first(), id) {
            Some(i) => Some(i + 1),
            None => None,
        }
    }
}

/// What `spec_find_keyed` finds is the first match.
pub proof fn lemma_find_keyed_first<C>(s: Seq<(u64, C)>, id: u64)
    ensures
        match spec_find_keyed(s, id) {
            Some(i) => {
                &&& 0 <= i < s.len()
                &&& s[i].0 == id
                &&& forall|q: int| 0 <= q < i ==> s[q].0 != id
            },
            None => forall|q: int| 0 <= q < s.len() ==> s[q].0 != id,
        },
    decreases s.len(),
{
    if s.len() > 0 && s[0].0 != id {
        lemma_find_keyed_first(s.drop_first(), id);
        assert forall|q: int| 1 <= q < s.len() implies s[q] == s.drop_first()[q - 1] by {}
    }
}

/// The position of the first occurrence of `id`, if any.
pub open spec fn spec_find_plain(s: Seq<u64>, id: u64) -> Option<int>
    decreases s.len(),
{
    if s.len() == 0 {
        None
    } else if s[0] == id {
        Some(0)
    } else {
        match spec_find_plain(s.drop_first(), id) {
            Some(i) => Some(i + 1),
            None => None,
        }
    }
}

/// What `spec_find_plain` finds is the first occurrence.
pub proof fn lemma_find_plain_first(s: Seq<u64>, id: u64)
    ensures
        match spec_find_plain(s, id) {
            Some(i) => {
                &&& 0 <= i < s.len()
                &&& s[i] == id
                &&& forall|q: int| 0 <= q < i ==> s[q] != id
            },
            None => forall|q: int| 0 <= q < s.len() ==> s[q] != id,
        },
    decreases s.len(),
{
    if s.len() > 0 && s[0] != id {
        lemma_find_plain_first(s.drop_first(), id);
        assert forall|q: int| 1 <= q < s.len() implies s[q] == s.drop_first()[q - 1] by {}
    }
}

/// Finds the first entry with this connection id.
fn find_con<C>(id: u64, arr: &[(u64, C)]) -> (r: Option<usize>)
    ensures
        match r {
            Some(i) => spec_find_keyed(arr@, id) == Some(i as int),
            None => spec_find_keyed(arr@, id) is None,
        },
{
    let n = arr.len();
    let mut index: usize = 0;
    while index < n
        invariant
            n == arr@.len(),
            index <= n,
            forall|q: int| 0 <= q < index ==> arr@[q].0 != id,
        decreases n - index,
    {
        if slice_index_get(arr, index).0 == id {
            proof {
                lemma_find_keyed_first(arr@, id);
                match spec_find_keyed(arr@, id) {
                    Some(f) => {
                        assert(!(f < index) && !(index < f));
                    },
                    None => {
                        assert(false);
                    },
                }
            }
            return Some(index);
        }
        index = index + 1;
    }
    proof {
        lemma_find_keyed_first(arr@, id);
        if let Some(f) = spec_find_keyed(arr@, id) {
            assert(false);
        }
    }
    None
}

/// Finds the first occurrence of this connection id.
fn find_id(id: u64, arr: &[u64]) -> (r: Option<usize>)
    ensures
        match r {
            Some(i) => spec_find_plain(arr@, id) == Some(i as int),
            None => spec_find_plain(arr@, id) is None,
        },
{
    let n = arr.len();
    let mut index: usize = 0;
    while index < n
        invariant
            n == arr@.len(),
            index <= n,
            forall|q: int| 0 <= q < index ==> arr@[q] != id,
        decreases n - index,
    {
        if *slice_index_get(arr, index) == id {
            proof {
                lemma_find_plain_first(arr@, id);
                match spec_find_plain(arr@, id) {
                    Some(f) => {
                        assert(!(f < index) && !(index < f));
                    },
                    None => {
                        assert(false);
                    },
                }
            }
            return Some(index);
        }
        index = index + 1;
    }
    proof {
        lemma_find_plain_first(arr@, id);
        if let Some(f) = spec_find_plain(arr@, id) {
            assert(false);
        }
    }
    None
}

/// The recovery rule for one reported half, shared by both halves. `con` is
/// the half just reported with validity `is_valid`; `same_recovered` holds
/// halves of the same side already back, `other_recovered` the opposite
/// side's, `errors` the ids whose first-reported half was invalid.
///
/// A pair is handed back (to be made available) if and only if the opposite
/// half was already back and this half is valid. An id on the error list has
/// this half discarded and the id forgotten. A half reported invalid before
/// its partner puts its id on the error list. A valid half whose partner is
/// still out waits among the recovered.
pub fn recover<C, T>(
    id: u64,
    is_valid: bool,
    con: C,
    same_recovered: &mut Vec<(u64, C)>,
    other_recovered: &mut Vec<(u64, T)>,
    errors: &mut Vec<u64>,
) -> (r: Option<(C, T)>)
    ensures
        match spec_find_keyed(old(other_recovered)@, id) {
            Some(j) => {
                &&& final(other_recovered)@ == old(other_recovered)@.remove(j)
                &&& final(same_recovered)@ == old(same_recovered)@
                &&& final(errors)@ == old(errors)@
                &&& r == (if is_valid {
                    Some((con, old(other_recovered)@[j].1))
                } else {
                    None::<(C, T)>
                })
            },
            None => {
                &&& final(other_recovered)@ == old(other_recovered)@
                &&& match spec_find_plain(old(errors)@, id) {
                    Some(k) => {
                        &&& final(errors)@ == old(errors)@.remove(k)
                        &&& final(same_recovered)@ == old(same_recovered)@
                        &&& r is None
                    },
                    None => {
                        if is_valid {
                            &&& final(same_recovered)@ == old(same_recovered)@.push((id, con))
                            &&& final(errors)@ == old(errors)@
                            &&& r is None
                        } else {
                            &&& final(errors)@ == old(errors)@.push(id)
                            &&& final(same_recovered)@ == old(same_recovered)@
                            &&& r is None
                        }
                    },
                }
            },
        },
{
    if let Some(index) = find_con(id, other_recovered.as_slice()) {
        proof {
            lemma_find_keyed_first(other_recovered@, id);
        }
        let pair = other_recovered.remove(index);

        if !is_valid {
            return None;
        }

        return Some((con, pair.1));
    }

    if let Some(index) = find_id(id, errors.as_slice()) {
        proof {
            lemma_find_plain_first(errors@, id);
        }
        errors.remove(index);
        return None;
    }

    if !is_valid {
        errors.push(id);

        return None;
    }

    same_recovered.push((id, con));

    None
}

/// The pool itself: the available pairs and the recovery bookkeeping. The
/// halves are generic, so the dialing and the sockets stay with the runtime.
pub struct PairPool<R, W> {
    max_cons: usize,
    avail_cons: Vec<(u64, R, W)>,
    recovered_reads: Vec<(u64, R)>,
    recovered_writes: Vec<(u64, W)>,
    invalid_ids: Vec<u64>,
}

impl<R, W> PairPool<R, W> {
    /// The available pairs, in order, each under its id.
    pub closed spec fn spec_avail(self) -> Seq<(u64, R, W)> {
        self.avail_cons@
    }

    /// Read halves back and valid, waiting for their write halves.
    pub closed spec fn spec_recovered_reads(self) -> Seq<(u64, R)> {
        self.recovered_reads@
    }

    /// Write halves back and valid, waiting for their read halves.
    pub closed spec fn spec_recovered_writes(self) -> Seq<(u64, W)> {
        self.recovered_writes@
    }

    /// Ids whose first-reported half was invalid.
    pub closed spec fn spec_invalid_ids(self) -> Seq<u64> {
        self.invalid_ids@
    }

    /// The configured pool size.
    pub closed spec fn spec_max(self) -> usize {
        self.max_cons
    }

    /// An empty pool for up to `max_cons` pairs.
    pub fn new(max_cons: usize) -> (r: PairPool<R, W>)
        ensures
            r.spec_max() == max_cons,
            r.spec_avail() == Seq::<(u64, R, W)>::empty(),
            r.spec_recovered_reads() == Seq::<(u64, R)>::empty(),
            r.spec_recovered_writes() == Seq::<(u64, W)>::empty(),
            r.spec_invalid_ids() == Seq::<u64>::empty(),
    {
        PairPool {
            max_cons,
            avail_cons: Vec::new(),
            recovered_reads: Vec::new(),
            recovered_writes: Vec::new(),
            invalid_ids: Vec::new(),
        }
    }

    /// Puts a freshly dialed pair into the available set.
    pub fn stock(&mut self, id: u64, read: R, write: W)
        ensures
            final(self).spec_avail() == old(self).spec_avail().push((id, read, write)),
            final(self).spec_recovered_reads() == old(self).spec_recovered_reads(),
            final(self).spec_recovered_writes() == old(self).spec_recovered_writes(),
            final(self).spec_invalid_ids() == old(self).spec_invalid_ids(),
            final(self).spec_max() == old(self).spec_max(),
    {
        self.avail_cons.push((id, read, write));
    }

    /// Lends the oldest available pair, or nothing when the pool is empty
    /// (the caller then dials a fresh connection).
    pub fn get(&mut self) -> (r: Option<(u64, R, W)>)
        ensures
            final(self).spec_recovered_reads() == old(self).spec_recovered_reads(),
            final(self).spec_recovered_writes() == old(self).spec_recovered_writes(),
            final(self).spec_invalid_ids() == old(self).spec_invalid_ids(),
            final(self).spec_max() == old(self).spec_max(),
            match r {
                Some(p) => {
                    &&& old(self).spec_avail().len() > 0
                    &&& p == old(self).spec_avail()[0]
                    &&& final(self).spec_avail() == old(self).spec_avail().remove(0)
                },
                None => {
                    &&& old(self).spec_avail().len() == 0
                    &&& final(self).spec_avail() == old(self).spec_avail()
                },
            },
    {
        if self.avail_cons.len() == 0 {
            return None;
        }
        Some(self.avail_cons.remove(0))
    }

    /// How many pairs are available right now.
    pub fn available_connections(&self) -> (r: usize)
        ensures
            r == self.spec_avail().len(),
    {
        self.avail_cons.len()
    }

    /// The configured pool size.
    pub fn max_connections(&self) -> (r: usize)
        ensures
            r == self.spec_max(),
    {
        self.max_cons
    }

    /// How many read halves are back and waiting for their write halves.
    pub fn recovered_read_count(&self) -> (r: usize)
        ensures
            r == self.spec_recovered_reads().len(),
    {
        self.recovered_reads.len()
    }

    /// How many write halves are back and waiting for their read halves.
    pub fn recovered_write_count(&self) -> (r: usize)
        ensures
            r == self.spec_recovered_writes().len(),
    {
        self.recovered_writes.len()
    }

    /// How many ids had their first-reported half invalid and await the
    /// partner half.
    pub fn invalid_id_count(&self) -> (r: usize)
        ensures
            r == self.spec_invalid_ids().len(),
    {
        self.invalid_ids.len()
    }

    /// Takes one reported read half through the recovery rule; a completed
    /// valid pair goes back into the available set, and `true` says so.
    pub fn report_read(&mut self, id: u64, is_valid: bool, con: R) -> (recovered: bool)
        ensures
            final(self).spec_max() == old(self).spec_max(),
            spec_find_plain(old(self).spec_invalid_ids(), id) is Some && spec_find_keyed(
                old(self).spec_recovered_writes(),
                id,
            ) is None ==> !recovered && final(self).spec_avail() == old(self).spec_avail(),
            !is_valid ==> !recovered && final(self).spec_avail() == old(self).spec_avail(),
            match spec_find_keyed(old(self).spec_recovered_writes(), id) {
                Some(j) => {
                    &&& final(self).spec_recovered_writes() == old(
                        self,
                    ).spec_recovered_writes().remove(j)
                    &&& final(self).spec_recovered_reads() == old(self).spec_recovered_reads()
                    &&& final(self).spec_invalid_ids() == old(self).spec_invalid_ids()
                    &&& if is_valid {
                        &&& recovered
                        &&& final(self).spec_avail() == old(self).spec_avail().push(
                            (id, con, old(self).spec_recovered_writes()[j].1),
                        )
                    } else {
                        &&& !recovered
                        &&& final(self).spec_avail() == old(self).spec_avail()
                    }
                },
                None => {
                    &&& !recovered
                    &&& final(self).spec_avail() == old(self).spec_avail()
                    &&& final(self).spec_recovered_writes() == old(self).spec_recovered_writes()
                    &&& match spec_find_plain(old(self).spec_invalid_ids(), id) {
                        Some(k) => {
                            &&& final(self).spec_invalid_ids() == old(
                                self,
                            ).spec_invalid_ids().remove(k)
                            &&& final(self).spec_recovered_reads() == old(
                                self,
                            ).spec_recovered_reads()
                        },
                        None => {
                            if is_valid {
                                &&& final(self).spec_recovered_reads() == old(
                                    self,
                                ).spec_recovered_reads().push((id, con))
                                &&& final(self).spec_invalid_ids() == old(self).spec_invalid_ids()
                            } else {
                                &&& final(self).spec_invalid_ids() == old(
                                    self,
                                ).spec_invalid_ids().push(id)
                                &&& final(self).spec_recovered_reads() == old(
                                    self,
                                ).spec_recovered_reads()
                            }
                        },
                    }
                },
            },
    {
        match recover(
            id,
            is_valid,
            con,
            &mut self.recovered_reads,
            &mut self.recovered_writes,
            &mut self.invalid_ids,
        ) {
            Some((read, write)) => {
                self.avail_cons.push((id, read, write));
                true
            },
            None => false,
        }
    }

    /// Takes one reported write half through the recovery rule; a completed
    /// valid pair goes back into the available set, and `true` says so.
    pub fn report_write(&mut self, id: u64, is_valid: bool, con: W) -> (recovered: bool)
        ensures
            final(self).spec_max() == old(self).spec_max(),
            spec_find_plain(old(self).spec_invalid_ids(), id) is Some && spec_find_keyed(
                old(self).spec_recovered_reads(),
                id,
            ) is None ==> !recovered && final(self).spec_avail() == old(self).spec_avail(),
            !is_valid ==> !recovered && final(self).spec_avail() == old(self).spec_avail(),
            match spec_find_keyed(old(self).spec_recovered_reads(), id) {
                Some(j) => {
                    &&& final(self).spec_recovered_reads() == old(
                        self,
                    ).spec_recovered_reads().remove(j)
                    &&& final(self).spec_recovered_writes() == old(self).spec_recovered_writes()
                    &&& final(self).spec_invalid_ids() == old(self).spec_invalid_ids()
                    &&& if is_valid {
                        &&& recovered
                        &&& final(self).spec_avail() == old(self).spec_avail().push(
                            (id, old(self).spec_recovered_reads()[j].1, con),
                        )
                    } else {
                        &&& !recovered
                        &&& final(self).spec_avail() == old(self).spec_avail()
                    }
                },
                None => {
                    &&& !recovered
                    &&& final(self).spec_avail() == old(self).spec_avail()
                    &&& final(self).spec_recovered_reads() == old(self).spec_recovered_reads()
                    &&& match spec_find_plain(old(self).spec_invalid_ids(), id) {
                        Some(k) => {
                            &&& final(self).spec_invalid_ids() == old(
                                self,
                            ).spec_invalid_ids().remove(k)
                            &&& final(self).spec_recovered_writes() == old(
                                self,
                            ).spec_recovered_writes()
                        },
                        None => {
                            if is_valid {
                                &&& final(self).spec_recovered_writes() == old(
                                    self,
                                ).spec_recovered_writes().push((id, con))
                                &&& final(self).spec_invalid_ids() == old(self).spec_invalid_ids()
                            } else {
                                &&& final(self).spec_invalid_ids() == old(
                                    self,
                                ).spec_invalid_ids().push(id)
                                &&& final(self).spec_recovered_writes() == old(
                                    self,
                                ).spec_recovered_writes()
                            }
                        },
                    }
                },
            },
    {
        match recover(
            id,
            is_valid,
            con,
            &mut self.recovered_writes,
            &mut self.recovered_reads,
            &mut self.invalid_ids,
        ) {
            Some((write, read)) => {
                self.avail_cons.push((id, read, write));
                true
            },
            None => false,
        }
    }
}

/// The life of one pooled pair, as the pool sees it: stocked pairs start
/// available; `get` lends both halves at once; each half is reported back
/// exactly once, valid or invalid, and `recover` moves the pair on.
pub enum PairState {
    /// Both halves sit in the available set.
    Ready,
    /// Both halves are out with borrowers.
    Lent,
    /// One half is back and valid; the other is still out.
    HalfBack,
    /// One half came back invalid and was discarded; its id is on the error
    /// list while the other half is still out.
    HalfRetired,
    /// Both halves are accounted for and the pair is gone for good.
    Discarded,
}

/// What can happen to a pair: it is lent out, or one of its halves is
/// reported back, valid or invalid.
pub enum PairEvent {
    Lend,
    ReturnValid,
    ReturnInvalid,
}

/// The pair automaton. `None` marks what cannot happen: an available pair
/// has no half out to report, and a discarded pair is never touched again.
pub open spec fn pair_step(s: PairState, e: PairEvent) -> Option<PairState> {
    match (s, e) {
        (PairState::Ready, PairEvent::Lend) => Some(PairState::Lent),
        (PairState::Lent, PairEvent::ReturnValid) => Some(PairState::HalfBack),
        (PairState::Lent, PairEvent::ReturnInvalid) => Some(PairState::HalfRetired),
        (PairState::HalfBack, PairEvent::ReturnValid) => Some(PairState::Ready),
        (PairState::HalfBack, PairEvent::ReturnInvalid) => Some(PairState::Discarded),
        (PairState::HalfRetired, PairEvent::ReturnValid) => Some(PairState::Discarded),
        (PairState::HalfRetired, PairEvent::ReturnInvalid) => Some(PairState::Discarded),
        _ => None,
    }
}

/// How many of the pair's two halves sit in the pool (available, or back and
/// waiting for the partner).
pub open spec fn halves_in_pool(s: PairState) -> int {
    match s {
        PairState::Ready => 2,
        PairState::Lent => 0,
        PairState::HalfBack => 1,
        PairState::HalfRetired => 0,
        PairState::Discarded => 0,
    }
}

/// How many of the pair's two halves are held by borrowers.
pub open spec fn halves_held(s: PairState) -> int {
    match s {
        PairState::Ready => 0,
        PairState::Lent => 2,
        PairState::HalfBack => 1,
        PairState::HalfRetired => 1,
        PairState::Discarded => 0,
    }
}

/// How many of the pair's two halves were discarded for good.
pub open spec fn halves_discarded(s: PairState) -> int {
    match s {
        PairState::Ready => 0,
        PairState::Lent => 0,
        PairState::HalfBack => 0,
        PairState::HalfRetired => 1,
        PairState::Discarded => 2,
    }
}

/// Whether some half of the pair has been reported invalid.
pub open spec fn tainted(s: PairState) -> bool {
    s == PairState::HalfRetired || s == PairState::Discarded
}

/// The state a pair reaches after a sequence of events, or nothing if some
/// event is impossible in the state it meets.
pub open spec fn run_pair(s: PairState, events: Seq<PairEvent>) -> Option<PairState>
    decreases events.len(),
{
    if events.len() == 0 {
        Some(s)
    } else {
        match pair_step(s, events[0]) {
            Some(next) => run_pair(next, events.drop_first()),
            None => None,
        }
    }
}

/// Pool pair integrity, the conservation half: a pair always accounts for
/// exactly its two halves, and while no half of it was invalidated, none is
/// discarded — the halves in the pool plus the halves held are exactly two.
/// Summed over the pairs of a pool stocked to `max_cons`, available halves
/// plus held halves equal `2 * max_cons` as long as every pair is valid.
pub proof fn lemma_pair_conservation(s: PairState)
    ensures
        halves_in_pool(s) + halves_held(s) + halves_discarded(s) == 2,
        !tainted(s) ==> halves_in_pool(s) + halves_held(s) == 2,
{
}

/// A run can be cut anywhere: running all events is running the first `k`
/// and then the rest from wherever they led.
proof fn lemma_run_split(s: PairState, events: Seq<PairEvent>, k: int)
    requires
        0 <= k <= events.len(),
    ensures
        run_pair(s, events) == (match run_pair(s, events.take(k)) {
            Some(mid) => run_pair(mid, events.skip(k)),
            None => None::<PairState>,
        }),
    decreases k,
{
    if k == 0 {
        assert(events.take(0) =~= Seq::<PairEvent>::empty());
        assert(events.skip(0) =~= events);
    } else {
        assert(events.take(k)[0] == events[0]);
        match pair_step(s, events[0]) {
            Some(next) => {
                assert(events.take(k).drop_first() =~= events.drop_first().take(k - 1));
                assert(events.skip(k) =~= events.drop_first().skip(k - 1));
                lemma_run_split(next, events.drop_first(), k - 1);
            },
            None => {},
        }
    }
}

/// Taint is permanent: no sequence of events leads a tainted pair anywhere
/// untainted.
proof fn lemma_taint_lasts(s: PairState, events: Seq<PairEvent>)
    requires
        tainted(s),
        run_pair(s, events) is Some,
    ensures
        tainted(run_pair(s, events).unwrap()),
    decreases events.len(),
{
    if events.len() > 0 {
        match pair_step(s, events[0]) {
            Some(next) => {
                lemma_taint_lasts(next, events.drop_first());
            },
            None => {},
        }
    }
}

/// Pool pair integrity, the exclusion half: once any half of a pair is
/// reported invalid, the pair never re-enters the available set.
pub proof fn lemma_invalidated_pair_never_ready(s: PairState, events: Seq<PairEvent>, i: int)
    requires
        0 <= i < events.len(),
        events[i] == PairEvent::ReturnInvalid,
        run_pair(s, events) is Some,
    ensures
        run_pair(s, events) != Some(PairState::Ready),
        tainted(run_pair(s, events).unwrap()),
{
    lemma_run_split(s, events, i + 1);
    let mid = run_pair(s, events.take(i + 1));
    assert(mid is Some);
    lemma_run_split(s, events.take(i + 1), i);
    let before = run_pair(s, events.take(i + 1).take(i));
    assert(before is Some);
    let cut = events.take(i + 1).skip(i);
    assert(cut =~= seq![events[i]]);
    assert(cut.drop_first() =~= Seq::<PairEvent>::empty());
    assert(cut[0] == events[i]);
    match pair_step(before.unwrap(), events[i]) {
        Some(next) => {
            assert(run_pair(next, cut.drop_first()) == Some(next));
        },
        None => {},
    }
    assert(mid == pair_step(before.unwrap(), events[i]));
    assert(tainted(mid.unwrap()));
    lemma_taint_lasts(mid.unwrap(), events.skip(i + 1));
}

} // verus!
