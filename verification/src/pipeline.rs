//! The two ends of the pipeline: a worker that generates one test case after
//! another, and an aggregator that keeps each distinct case once and says
//! when the target is reached. What carries the cases from one to the other
//! is the caller's.

use std::collections::HashMap;
use vstd::prelude::*;
use crate::engine::emit_json;
use crate::model::{json_gen, Limits};
use crate::rng::Rng;

verus! {

broadcast use vstd::std_specs::hash::group_hash_axioms;

/// Whether no case occurs twice.
pub open spec fn distinct(cases: Seq<Seq<u8>>) -> bool {
    forall|i: int, j: int| 0 <= i < j < cases.len() ==> cases[i] != cases[j]
}

/// The cases after one more arrived: a case that is there already changes
/// nothing, a new one comes last.
pub open spec fn inserted(cases: Seq<Seq<u8>>, case: Seq<u8>) -> Seq<Seq<u8>> {
    if cases.contains(case) {
        cases
    } else {
        cases.push(case)
    }
}

/// The cases after one more arrived at an aggregator with the given target:
/// once the target is reached nothing is taken.
pub open spec fn accepted(cases: Seq<Seq<u8>>, target: usize, case: Seq<u8>) -> Seq<Seq<u8>> {
    if cases.len() >= target {
        cases
    } else {
        inserted(cases, case)
    }
}

/// The cases and the generator after a worker with that generator has handed
/// an aggregator one case after another, until the target is reached or
/// `budget` cases are handed over.
pub open spec fn filled(
    cases: Seq<Seq<u8>>,
    target: usize,
    rng: Rng,
    limits: Limits,
    budget: nat,
) -> (Seq<Seq<u8>>, Rng)
    decreases budget,
{
    if budget == 0 || cases.len() >= target {
        (cases, rng)
    } else {
        let made = json_gen(rng, limits, 0);
        filled(accepted(cases, target, made.out), target, made.src, limits, (budget - 1) as nat)
    }
}

/// Inserting a case keeps the cases distinct.
pub proof fn inserted_is_distinct(cases: Seq<Seq<u8>>, case: Seq<u8>)
    requires
        distinct(cases),
    ensures
        distinct(inserted(cases, case)),
        inserted(cases, case).contains(case),
{
    if !cases.contains(case) {
        let after = cases.push(case);
        assert(after[cases.len() as int] == case);
        assert forall|i: int, j: int| 0 <= i < j < after.len() implies after[i] != after[j] by {
            if j == cases.len() {
                assert(cases.contains(cases[i]));
            }
        }
    }
}

/// Inserting the same case twice is inserting it once: the second time
/// nothing changes, and so the number of cases does not.
pub proof fn insert_is_idempotent(cases: Seq<Seq<u8>>, case: Seq<u8>)
    ensures
        inserted(inserted(cases, case), case) == inserted(cases, case),
        inserted(inserted(cases, case), case).len() == inserted(cases, case).len(),
{
    if !cases.contains(case) {
        assert(cases.push(case)[cases.len() as int] == case);
    }
}

/// An aggregator takes the same case twice as it takes it once.
pub proof fn accept_is_idempotent(cases: Seq<Seq<u8>>, target: usize, case: Seq<u8>)
    ensures
        accepted(accepted(cases, target, case), target, case) == accepted(cases, target, case),
{
    insert_is_idempotent(cases, case);
}

/// Whether two byte vectors hold the same bytes.
pub fn same_bytes(a: &Vec<u8>, b: &Vec<u8>) -> (r: bool)
    ensures
        r == (a@ == b@),
{
    if a.len() != b.len() {
        return false;
    }
    let mut i: usize = 0;
    while i < a.len()
        invariant
            i <= a.len(),
            a.len() == b.len(),
            forall|k: int| 0 <= k < i ==> a@[k] == b@[k],
        decreases a.len() - i,
    {
        if a[i] != b[i] {
            return false;
        }
        i += 1;
    }
    assert(a@ =~= b@);
    true
}

/// The first value of a fingerprint.
pub const FNV_OFFSET: u64 = 0xcbf29ce484222325;

/// The multiplier of a fingerprint.
pub const FNV_PRIME: u64 = 0x100000001b3;

/// A fingerprint after one more byte: the byte is folded in, and the result
/// multiplied, modulo 2^64.
pub open spec fn mix(h: u64, b: u8) -> u64 {
    (((h ^ (b as u64)) as nat * FNV_PRIME as nat) % 0x1_0000_0000_0000_0000) as u64
}

/// The fingerprint of a case: its bytes mixed in, from the first to the
/// last.
pub open spec fn fingerprint_of(bytes: Seq<u8>) -> u64
    decreases bytes.len(),
{
    if bytes.len() == 0 {
        FNV_OFFSET
    } else {
        mix(fingerprint_of(bytes.drop_last()), bytes.last())
    }
}

/// The fingerprint of a case. Equal cases have equal fingerprints.
pub fn fingerprint(bytes: &Vec<u8>) -> (h: u64)
    ensures
        h == fingerprint_of(bytes@),
{
    let mut h: u64 = FNV_OFFSET;
    let mut i: usize = 0;
    assert(bytes@.take(0) =~= Seq::<u8>::empty());
    while i < bytes.len()
        invariant
            i <= bytes.len(),
            h == fingerprint_of(bytes@.take(i as int)),
        decreases bytes.len() - i,
    {
        let ghost upto = bytes@.take(i + 1);
        assert(upto.drop_last() =~= bytes@.take(i as int));
        assert(upto.last() == bytes@[i as int]);
        h = (h ^ (bytes[i] as u64)).wrapping_mul(FNV_PRIME);
        i += 1;
    }
    assert(bytes@.take(bytes.len() as int) =~= bytes@);
    h
}

/// The collector of the pipeline: the distinct cases received so far, in the
/// order in which each first arrived, and the number of cases wanted. An
/// index from fingerprints to places finds a case that is held already.
pub struct Aggregator {
    cases: Vec<Vec<u8>>,
    index: HashMap<u64, Vec<usize>>,
    target: usize,
}

impl View for Aggregator {
    type V = Seq<Seq<u8>>;

    closed spec fn view(&self) -> Seq<Seq<u8>> {
        Seq::new(self.cases@.len(), |i: int| self.cases@[i]@)
    }
}

impl Aggregator {
    /// The number of distinct cases wanted.
    pub closed spec fn goal(&self) -> usize {
        self.target
    }

    /// The index lists every case under its fingerprint, and lists only
    /// places that hold a case.
    pub closed spec fn indexed(&self) -> bool {
        &&& forall|i: int|
            0 <= i < self.cases@.len() ==> {
                let h = fingerprint_of(#[trigger] self.cases@[i]@);
                self.index@.contains_key(h) && self.index@[h]@.contains(i as usize)
            }
        &&& forall|k: u64, j: int|
            self.index@.contains_key(k) && 0 <= j < self.index@[k]@.len() ==> (
            #[trigger] self.index@[k]@[j]) < self.cases@.len()
    }

    /// No case is held twice, no more cases than wanted, and the index is
    /// in order.
    pub open spec fn wf(&self) -> bool {
        distinct(self@) && self@.len() <= self.goal() && self.goal() >= 1 && self.indexed()
    }

    /// Whether the target is reached.
    pub open spec fn done(&self) -> bool {
        self@.len() >= self.goal()
    }

    /// An aggregator that holds nothing and wants `target` cases; none if
    /// `target` is zero.
    pub fn new(target: usize) -> (res: Option<Aggregator>)
        ensures
            res.is_some() == (target >= 1),
            res matches Some(a) ==> a.wf() && a@ == Seq::<Seq<u8>>::empty() && a.goal() == target,
    {
        if target == 0 {
            None
        } else {
            let a = Aggregator { cases: Vec::new(), index: HashMap::new(), target };
            assert(a@ =~= Seq::<Seq<u8>>::empty());
            Some(a)
        }
    }

    /// The number of distinct cases wanted.
    pub fn target(&self) -> (r: usize)
        ensures
            r == self.goal(),
    {
        self.target
    }

    /// The number of distinct cases held.
    pub fn len(&self) -> (r: usize)
        ensures
            r == self@.len(),
    {
        self.cases.len()
    }

    /// Whether the target is reached.
    pub fn is_done(&self) -> (r: bool)
        ensures
            r == self.done(),
    {
        self.cases.len() >= self.target
    }

    /// Whether a case with fingerprint `h` is held: it is looked for among
    /// the places that the index lists under `h`.
    fn find(&self, case: &Vec<u8>, h: u64) -> (r: bool)
        requires
            self.indexed(),
            h == fingerprint_of(case@),
        ensures
            r == self@.contains(case@),
    {
        let held = self.cases.len();
        match self.index.get(&h) {
            None => {
                assert forall|i: int| 0 <= i < self@.len() implies self@[i] != case@ by {
                    assert(self.index@.contains_key(fingerprint_of(self.cases@[i]@)));
                }
                false
            },
            Some(bucket) => {
                let mut j: usize = 0;
                while j < bucket.len()
                    invariant
                        j <= bucket.len(),
                        self.indexed(),
                        self.index@.contains_key(h),
                        *bucket == self.index@[h],
                        forall|k: int| 0 <= k < j ==> self@[bucket@[k] as int] != case@,
                    decreases bucket.len() - j,
                {
                    let at = bucket[j];
                    assert(at == self.index@[h]@[j as int]);
                    if same_bytes(&self.cases[at], case) {
                        assert(self@[at as int] == case@);
                        return true;
                    }
                    j += 1;
                }
                assert forall|i: int| 0 <= i < self@.len() implies self@[i] != case@ by {
                    if self@[i] == case@ {
                        assert(i < held);
                        let place = i as usize;
                        assert(fingerprint_of(self.cases@[i]@) == h);
                        assert(self.index@[h]@.contains(place));
                        let k = choose|k: int| 0 <= k < bucket@.len() && bucket@[k] == place;
                        assert(self@[bucket@[k] as int] != case@);
                    }
                }
                false
            },
        }
    }

    /// Whether `case` is held.
    pub fn contains(&self, case: &Vec<u8>) -> (r: bool)
        requires
            self.wf(),
        ensures
            r == self@.contains(case@),
    {
        self.find(case, fingerprint(case))
    }

    /// The `i`-th case, in the order of first arrival.
    pub fn get(&self, i: usize) -> (r: &Vec<u8>)
        requires
            i < self@.len(),
        ensures
            r@ == self@[i as int],
    {
        &self.cases[i]
    }

    /// Takes one case from the channel. While the target is not reached, a
    /// case not yet held is added and one already held is dropped; once it
    /// is reached nothing is taken. Returns whether the target is reached
    /// now: the signal to raise the stop flag.
    pub fn accept(&mut self, case: Vec<u8>) -> (stop: bool)
        requires
            old(self).wf(),
        ensures
            final(self).wf(),
            final(self).goal() == old(self).goal(),
            final(self)@ == accepted(old(self)@, old(self).goal(), case@),
            final(self)@.len() == old(self)@.len() || final(self)@.len() == old(self)@.len() + 1,
            final(self)@.len() == old(self)@.len() + 1 <==> !old(self).done() && !old(self)@.contains(
                case@,
            ),
            !old(self).done() ==> final(self)@.contains(case@),
            stop == final(self).done(),
    {
        if self.cases.len() >= self.target {
            return true;
        }
        let h = fingerprint(&case);
        proof {
            inserted_is_distinct(self@, case@);
        }
        if !self.find(&case, h) {
            let ghost before = *self;
            let ghost added = case@;
            let at = self.cases.len();
            self.cases.push(case);
            let mut bucket = match self.index.remove(&h) {
                Some(bucket) => bucket,
                None => Vec::new(),
            };
            let ghost listed = bucket@;
            bucket.push(at);
            self.index.insert(h, bucket);
            assert(self@ =~= before@.push(added));
            assert(self.indexed()) by {
                assert forall|i: int| 0 <= i < self.cases@.len() implies {
                    let k = fingerprint_of(#[trigger] self.cases@[i]@);
                    self.index@.contains_key(k) && self.index@[k]@.contains(i as usize)
                } by {
                    let k = fingerprint_of(self.cases@[i]@);
                    if i == at {
                        assert(self.index@[h]@[listed.len() as int] == at);
                    } else {
                        assert(self.cases@[i] == before.cases@[i]);
                        assert(before.index@[k]@.contains(i as usize));
                        if k == h {
                            let place = i as usize;
                            let j = choose|j: int| 0 <= j < listed.len() && listed[j] == place;
                            assert(self.index@[h]@[j] == place);
                        }
                    }
                }
                assert forall|k: u64, j: int|
                    self.index@.contains_key(k) && 0 <= j < self.index@[k]@.len() implies (
                #[trigger] self.index@[k]@[j]) < self.cases@.len() by {
                    if k == h {
                        if j < listed.len() {
                            assert(self.index@[h]@[j] == listed[j]);
                            assert(before.index@.contains_key(h));
                            assert(before.index@[h]@[j] < before.cases@.len());
                        }
                    } else {
                        assert(before.index@.contains_key(k));
                        assert(before.index@[k]@[j] < before.cases@.len());
                    }
                }
            }
        }
        self.cases.len() >= self.target
    }

    /// Runs the pipeline with one worker and no channel: takes cases from
    /// `worker` until the target is reached, at most `budget` of them.
    /// Returns whether the target is reached.
    pub fn fill(&mut self, worker: &mut Worker, budget: usize) -> (stop: bool)
        requires
            old(self).wf(),
            old(worker).limits.wf(),
        ensures
            final(self).wf(),
            final(self).goal() == old(self).goal(),
            final(worker).limits == old(worker).limits,
            final(self)@ == filled(
                old(self)@,
                old(self).goal(),
                old(worker).rng,
                old(worker).limits,
                budget as nat,
            ).0,
            final(worker).rng == filled(
                old(self)@,
                old(self).goal(),
                old(worker).rng,
                old(worker).limits,
                budget as nat,
            ).1,
            stop == final(self).done(),
    {
        let ghost goal = filled(self@, self.goal(), worker.rng, worker.limits, budget as nat);
        let mut taken: usize = 0;
        while taken < budget && !self.is_done()
            invariant
                taken <= budget,
                self.wf(),
                self.goal() == old(self).goal(),
                worker.limits == old(worker).limits,
                worker.limits.wf(),
                filled(self@, self.goal(), worker.rng, worker.limits, (budget - taken) as nat)
                    == goal,
            decreases budget - taken,
        {
            let case = worker.produce();
            self.accept(case);
            taken += 1;
        }
        self.is_done()
    }

    /// The distinct cases collected, in the order of first arrival.
    pub fn into_cases(self) -> (res: Vec<Vec<u8>>)
        ensures
            res@.len() == self@.len(),
            forall|i: int| 0 <= i < res@.len() ==> (#[trigger] res@[i])@ == self@[i],
    {
        self.cases
    }
}

/// What a run of the pipeline is asked for.
#[derive(Clone, Copy, Debug)]
pub struct Plan {
    /// The number of workers.
    pub workers: usize,
    /// The number of distinct cases wanted.
    pub target: usize,
}

impl Plan {
    /// A plan for `workers` workers and `target` cases; none unless both
    /// are at least one.
    pub fn new(workers: usize, target: usize) -> (res: Option<Plan>)
        ensures
            res.is_some() == (workers >= 1 && target >= 1),
            res matches Some(p) ==> p.workers == workers && p.target == target,
    {
        if workers >= 1 && target >= 1 {
            Some(Plan { workers, target })
        } else {
            None
        }
    }
}

/// The size, in bytes, that a worker gives the buffer of a new test case.
pub const BUFFER_SIZE: usize = 1024;

/// A producer of the pipeline: it owns its generator and shares it with no
/// one.
pub struct Worker {
    /// The worker's generator.
    pub rng: Rng,
    /// The bounds of each generation.
    pub limits: Limits,
}

impl Worker {
    /// A worker whose generator is seeded with `seed`.
    pub fn new(seed: u64, limits: Limits) -> (res: Worker)
        ensures
            res.rng == Rng::new_spec(seed),
            res.limits == limits,
    {
        Worker { rng: Rng::new(seed), limits }
    }

    /// Generates one test case: a whole text, from depth zero, in a buffer
    /// of its own, made with room for `BUFFER_SIZE` bytes.
    pub fn produce(&mut self) -> (case: Vec<u8>)
        requires
            old(self).limits.wf(),
        ensures
            case@ == json_gen(old(self).rng, old(self).limits, 0).out,
            final(self).rng == json_gen(old(self).rng, old(self).limits, 0).src,
            final(self).limits == old(self).limits,
    {
        let mut depth: u64 = 0;
        let mut buf: Vec<u8> = Vec::with_capacity(BUFFER_SIZE);
        emit_json(&mut self.rng, self.limits, &mut depth, &mut buf);
        assert(buf@ =~= json_gen(old(self).rng, old(self).limits, 0).out);
        buf
    }

    /// Whether the worker goes on after a case: it stops when the case
    /// could not be sent, and when the stop flag is up.
    pub fn goes_on(sent: bool, stop: bool) -> (r: bool)
        ensures
            r == (sent && !stop),
    {
        sent && !stop
    }
}

} // verus!
