//! Choosing the worker that receives a file: the file's coordinate selects an
//! order of ring entries, and the file goes to the first entry whose worker
//! reports free storage.
use vstd::prelude::*;
use vstd::string::*;
use crate::service::repository::{HashRing, is_first_below, none_below, rotate_left};

verus! {

broadcast use vstd::std_specs::hash::group_hash_axioms;

/// Usage, in percent, at or above which a worker is considered full.
pub const STORAGE_LIMIT_PERCENT: u64 = 90;

/// The URL of the worker at `address`: `https://<address>` when TLS is on,
/// `http://<address>` otherwise.
pub open spec fn worker_url_text(tls: bool, address: Seq<char>) -> Seq<char> {
    (if tls {
        "https://"@
    } else {
        "http://"@
    }) + address
}

/// The URL of the worker at `address`.
pub fn worker_url(tls: bool, address: &str) -> (url: String)
    ensures
        url@ == worker_url_text(tls, address@),
        tls ==> url@ == seq!['h', 't', 't', 'p', 's', ':', '/', '/'] + address@,
        !tls ==> url@ == seq!['h', 't', 't', 'p', ':', '/', '/'] + address@,
{
    let mut url = if tls {
        String::from_str("https://")
    } else {
        String::from_str("http://")
    };
    url.append(address);
    proof {
        reveal_strlit("https://");
        reveal_strlit("http://");
        if tls {
            assert(url@ =~= seq!['h', 't', 't', 'p', 's', ':', '/', '/'] + address@);
        } else {
            assert(url@ =~= seq!['h', 't', 't', 'p', ':', '/', '/'] + address@);
        }
    }
    url
}

/// What asking a worker for its storage gave.
#[derive(Clone, Copy, PartialEq, Eq, Structural, Debug)]
pub enum ProbeOutcome {
    /// The worker could not be reached.
    Unreachable,
    /// The worker's usage is at or above the limit.
    Full,
    /// The worker's usage is below the limit.
    HasRoom,
}

/// What the caller does next for the file being placed.
#[derive(Debug)]
pub enum RingStep {
    /// Ask the worker at `address` (owner of ring entry `key`) for its storage.
    Probe { key: i64, address: String },
    /// Send the file to the worker at `address`.
    Upload { key: i64, address: String },
    /// The upload to `address` is over; the local copy is removed when
    /// `remove` holds, that is when the upload succeeded.
    Finished { key: i64, address: String, remove: bool },
    /// Every owned ring entry was tried and none had room.
    Exhausted,
}

/// The ring entries, in `candidates` order, that have an owner, paired with it.
pub open spec fn ring_targets(candidates: Seq<i64>, owners: Map<i64, String>) -> Seq<(i64, String)>
    decreases candidates.len(),
{
    if candidates.len() == 0 {
        Seq::empty()
    } else {
        let rest = ring_targets(candidates.drop_last(), owners);
        let key = candidates.last();
        if owners.contains_key(key) {
            rest.push((key, owners[key]))
        } else {
            rest
        }
    }
}

/// Each target is a candidate coordinate together with the server that owns
/// it, and the targets keep the order of the candidates.
pub proof fn lemma_targets_owned(candidates: Seq<i64>, owners: Map<i64, String>)
    ensures
        forall|i: int|
            0 <= i < ring_targets(candidates, owners).len() ==> {
                let t = #[trigger] ring_targets(candidates, owners)[i];
                &&& owners.contains_key(t.0)
                &&& owners[t.0] == t.1
                &&& candidates.contains(t.0)
            },
        ring_targets(candidates, owners).len() <= candidates.len(),
    decreases candidates.len(),
{
    if candidates.len() > 0 {
        let before = candidates.drop_last();
        lemma_targets_owned(before, owners);
        let rest = ring_targets(before, owners);
        assert forall|i: int| 0 <= i < ring_targets(candidates, owners).len() implies {
            let t = #[trigger] ring_targets(candidates, owners)[i];
            &&& owners.contains_key(t.0)
            &&& owners[t.0] == t.1
            &&& candidates.contains(t.0)
        } by {
            let t = ring_targets(candidates, owners)[i];
            if i < rest.len() {
                assert(t == rest[i]);
                let j = choose|j: int| 0 <= j < before.len() && before[j] == t.0;
                assert(candidates[j] == t.0);
            } else {
                assert(t.0 == candidates.last());
                assert(candidates[candidates.len() - 1] == t.0);
            }
        }
    }
}

/// The targets are exactly the owned candidates, in candidate order, each with
/// its owner: target `t` is candidate `idx[t]`, the positions `idx` increase,
/// and every candidate that has an owner is one of them. So an exhausted
/// placement has tried every owned candidate.
pub proof fn lemma_targets_are_owned_candidates(candidates: Seq<i64>, owners: Map<i64, String>) -> (idx: Seq<int>)
    ensures
        idx.len() == ring_targets(candidates, owners).len(),
        forall|t: int|
            0 <= t < idx.len() ==> {
                &&& 0 <= #[trigger] idx[t] < candidates.len()
                &&& owners.contains_key(candidates[idx[t]])
                &&& ring_targets(candidates, owners)[t] == (candidates[idx[t]], owners[candidates[idx[t]]])
            },
        forall|s: int, t: int| 0 <= s < t < idx.len() ==> #[trigger] idx[s] < #[trigger] idx[t],
        forall|i: int|
            0 <= i < candidates.len() && owners.contains_key(#[trigger] candidates[i]) ==> exists|t: int|
                0 <= t < idx.len() && idx[t] == i,
    decreases candidates.len(),
{
    if candidates.len() == 0 {
        Seq::empty()
    } else {
        let before = candidates.drop_last();
        let n = candidates.len() - 1;
        let key = candidates.last();
        assert(candidates[n] == key);
        let prev = lemma_targets_are_owned_candidates(before, owners);
        let rest = ring_targets(before, owners);
        assert forall|t: int| 0 <= t < prev.len() implies candidates[#[trigger] prev[t]] == before[prev[t]] by {}
        if owners.contains_key(key) {
            let idx = prev.push(n);
            assert(ring_targets(candidates, owners) == rest.push((key, owners[key])));
            assert forall|t: int| 0 <= t < idx.len() implies {
                &&& 0 <= #[trigger] idx[t] < candidates.len()
                &&& owners.contains_key(candidates[idx[t]])
                &&& ring_targets(candidates, owners)[t] == (candidates[idx[t]], owners[candidates[idx[t]]])
            } by {
                if t < prev.len() {
                    assert(idx[t] == prev[t]);
                }
            }
            assert forall|s: int, t: int| 0 <= s < t < idx.len() implies #[trigger] idx[s] < #[trigger] idx[t] by {
                if t < prev.len() {
                    assert(idx[s] == prev[s] && idx[t] == prev[t]);
                } else {
                    assert(idx[s] == prev[s]);
                }
            }
            assert forall|i: int| 0 <= i < candidates.len() && owners.contains_key(#[trigger] candidates[i]) implies exists|t: int|
                0 <= t < idx.len() && idx[t] == i by {
                if i < n {
                    assert(before[i] == candidates[i]);
                    let t = choose|t: int| 0 <= t < prev.len() && prev[t] == i;
                    assert(idx[t] == i);
                } else {
                    assert(idx[prev.len() as int] == n);
                }
            }
            idx
        } else {
            assert(ring_targets(candidates, owners) == rest);
            assert forall|i: int| 0 <= i < candidates.len() && owners.contains_key(#[trigger] candidates[i]) implies exists|t: int|
                0 <= t < prev.len() && prev[t] == i by {
                assert(i < n);
                assert(before[i] == candidates[i]);
            }
            prev
        }
    }
}

/// The placement of one file in progress.
pub struct RingPlacement {
    targets: Vec<(i64, String)>,
    position: usize,
    uploading: bool,
    finished: bool,
    upload_succeeded: bool,
    outcomes: Ghost<Seq<ProbeOutcome>>,
}

impl RingPlacement {
    /// The owned ring entries, in the order they are tried.
    pub closed spec fn targets(&self) -> Seq<(i64, String)> {
        self.targets@
    }

    /// The index of the entry being tried (or of the chosen one).
    pub closed spec fn position(&self) -> nat {
        self.position as nat
    }

    /// Whether a worker with room has been found.
    pub closed spec fn uploading(&self) -> bool {
        self.uploading
    }

    /// Whether the upload to the chosen worker is over.
    pub closed spec fn finished(&self) -> bool {
        self.finished
    }

    /// Whether that upload succeeded.
    pub closed spec fn upload_succeeded(&self) -> bool {
        self.upload_succeeded
    }

    /// The probe outcomes recorded so far, one per tried entry.
    pub closed spec fn outcomes(&self) -> Seq<ProbeOutcome> {
        self.outcomes@
    }

    /// Every tried entry before the current one reported no room; the outcomes
    /// recorded are exactly those of the tried entries; when uploading, the
    /// current entry reported room.
    pub closed spec fn wf(&self) -> bool {
        &&& self.finished ==> self.uploading
        &&& self.position <= self.targets.len()
        &&& self.uploading ==> self.position < self.targets.len()
        &&& self.outcomes@.len() == self.position + if self.uploading { 1int } else { 0int }
        &&& forall|j: int| 0 <= j < self.position ==> #[trigger] self.outcomes@[j] != ProbeOutcome::HasRoom
        &&& self.uploading ==> self.outcomes@[self.position as int] == ProbeOutcome::HasRoom
    }

    /// A finished placement is one whose upload was started.
    pub proof fn lemma_finished_is_uploading(&self)
        requires
            self.wf(),
        ensures
            self.finished() ==> self.uploading(),
    {
    }

    /// Starts placing a file whose coordinate is `hashed`. `None` when no ring
    /// coordinate lies below `hashed`: there is no server to try.
    pub fn plan(ring: &HashRing, hashed: i64) -> (p: Option<RingPlacement>)
        ensures
            match p {
                Some(p) => {
                    &&& p.wf()
                    &&& p.position() == 0
                    &&& !p.uploading()
                    &&& !p.finished()
                    &&& exists|s: int|
                        is_first_below(ring.ring@, hashed, s) && p.targets() == ring_targets(
                            rotate_left(ring.ring@, s),
                            ring.vnode_map@,
                        )
                },
                None => none_below(ring.ring@, hashed),
            },
    {
        match ring.candidates(hashed) {
            None => None,
            Some(candidates) => {
                let n = candidates.len();
                let mut targets: Vec<(i64, String)> = Vec::new();
                let mut i: usize = 0;
                while i < n
                    invariant
                        n == candidates.len(),
                        i <= n,
                        targets@ == ring_targets(candidates@.subrange(0, i as int), ring.vnode_map@),
                    decreases n - i,
                {
                    let key = candidates[i];
                    proof {
                        assert(candidates@.subrange(0, i + 1).drop_last() =~= candidates@.subrange(0, i as int));
                    }
                    match ring.address_of(key) {
                        Some(address) => {
                            targets.push((key, address));
                        },
                        None => {},
                    }
                    i = i + 1;
                }
                proof {
                    assert(candidates@.subrange(0, n as int) =~= candidates@);
                }
                Some(
                    RingPlacement {
                        targets,
                        position: 0,
                        uploading: false,
                        finished: false,
                        upload_succeeded: false,
                        outcomes: Ghost(Seq::empty()),
                    },
                )
            },
        }
    }

    /// What to do next. An upload goes to the first target that reported room,
    /// every earlier target having been tried without room; after it the
    /// placement is finished, and the local copy is removed only when the upload
    /// succeeded; exhaustion means every target was tried and none had room.
    pub fn next_step(&self) -> (step: RingStep)
        requires
            self.wf(),
        ensures
            match step {
                RingStep::Probe { key, address } => {
                    &&& !self.uploading()
                    &&& !self.finished()
                    &&& self.position() < self.targets().len()
                    &&& (key, address) == self.targets()[self.position() as int]
                },
                RingStep::Upload { key, address } => {
                    &&& self.uploading()
                    &&& !self.finished()
                    &&& (key, address) == self.targets()[self.position() as int]
                    &&& self.outcomes()[self.position() as int] == ProbeOutcome::HasRoom
                    &&& forall|j: int| 0 <= j < self.position() ==> #[trigger] self.outcomes()[j] != ProbeOutcome::HasRoom
                },
                RingStep::Finished { key, address, remove } => {
                    &&& self.finished()
                    &&& self.uploading()
                    &&& (key, address) == self.targets()[self.position() as int]
                    &&& remove == self.upload_succeeded()
                    &&& self.outcomes()[self.position() as int] == ProbeOutcome::HasRoom
                },
                RingStep::Exhausted => {
                    &&& !self.uploading()
                    &&& self.position() == self.targets().len()
                    &&& self.outcomes().len() == self.targets().len()
                    &&& forall|j: int| 0 <= j < self.outcomes().len() ==> #[trigger] self.outcomes()[j] != ProbeOutcome::HasRoom
                },
            },
    {
        if self.finished {
            let key = self.targets[self.position].0;
            let address = self.targets[self.position].1.clone();
            RingStep::Finished { key, address, remove: self.upload_succeeded }
        } else if self.uploading {
            let key = self.targets[self.position].0;
            let address = self.targets[self.position].1.clone();
            RingStep::Upload { key, address }
        } else if self.position < self.targets.len() {
            let key = self.targets[self.position].0;
            let address = self.targets[self.position].1.clone();
            RingStep::Probe { key, address }
        } else {
            RingStep::Exhausted
        }
    }

    /// Records what probing the current target gave.
    pub fn record(&mut self, outcome: ProbeOutcome)
        requires
            old(self).wf(),
            !old(self).uploading(),
            old(self).position() < old(self).targets().len(),
        ensures
            final(self).wf(),
            final(self).targets() == old(self).targets(),
            final(self).outcomes() == old(self).outcomes().push(outcome),
            !final(self).finished(),
            outcome == ProbeOutcome::HasRoom ==> final(self).uploading() && final(self).position() == old(self).position(),
            outcome != ProbeOutcome::HasRoom ==> !final(self).uploading() && final(self).position() == old(self).position() + 1,
    {
        let ghost prev = self.outcomes@;
        self.outcomes = Ghost(prev.push(outcome));
        if outcome == ProbeOutcome::HasRoom {
            self.uploading = true;
        } else {
            self.position = self.position + 1;
        }
        proof {
            assert(forall|j: int| 0 <= j < prev.len() ==> self.outcomes@[j] == prev[j]);
        }
    }

    /// Records whether the upload to the chosen worker succeeded; the
    /// placement is then finished.
    pub fn record_upload(&mut self, succeeded: bool)
        requires
            old(self).wf(),
            old(self).uploading(),
            !old(self).finished(),
        ensures
            final(self).wf(),
            final(self).targets() == old(self).targets(),
            final(self).outcomes() == old(self).outcomes(),
            final(self).position() == old(self).position(),
            final(self).uploading(),
            final(self).finished(),
            final(self).upload_succeeded() == succeeded,
    {
        self.finished = true;
        self.upload_succeeded = succeeded;
    }
}

} // verus!
