//! The address-discovery state machine: enumerate the addresses already in
//! use, then assign the lowest free address to each device that announces
//! itself by hail.
//!
//! One [`DiscoveryRun`] drives one round.  Whoever runs it probes every
//! address that [`DiscoveryRun::next_probe`] names, reports each outcome
//! through [`DiscoveryRun::record_probe`], then hails, claims an address
//! through [`DiscoveryRun::claim_address`] for each announced device, and
//! closes the round with [`DiscoveryRun::finish`] when a hail goes
//! unanswered.  [`lemma_discovery_uniqueness`] shows the addresses a round
//! assigns are pairwise distinct and never collide with an enumerated one.

use std::collections::HashSet;

use vstd::prelude::*;

verus! {

/// The lowest assignable bus address; 1 through 4 are reserved.
pub const FIRST_FREE_ID: u8 = 5;

/// The highest assignable bus address.
pub const LAST_FREE_ID: u8 = 240;

/// Record `id` as taken and hand it out if it is the lowest address in the
/// assignable range not yet known to hold a device; nothing once the whole
/// range is taken.
pub fn next_id(known_ids: &mut HashSet<u8>) -> (r: Option<u8>)
    ensures
        match r {
            Some(id) => {
                &&& FIRST_FREE_ID <= id <= LAST_FREE_ID
                &&& !old(known_ids)@.contains(id)
                &&& forall|j: u8| FIRST_FREE_ID <= j < id ==> old(known_ids)@.contains(j)
                &&& final(known_ids)@ == old(known_ids)@.insert(id)
            },
            None => {
                &&& forall|j: u8| FIRST_FREE_ID <= j <= LAST_FREE_ID ==> old(known_ids)@.contains(j)
                &&& final(known_ids)@ == old(known_ids)@
            },
        },
{
    let mut id: u8 = FIRST_FREE_ID;
    while id <= LAST_FREE_ID
        invariant
            FIRST_FREE_ID <= id <= LAST_FREE_ID + 1,
            forall|j: u8| FIRST_FREE_ID <= j < id ==> known_ids@.contains(j),
            known_ids@ == old(known_ids)@,
        decreases LAST_FREE_ID + 1 - id,
    {
        if !known_ids.contains(&id) {
            known_ids.insert(id);
            return Some(id);
        }
        id += 1;
    }
    None
}

/// The phase a discovery round is in.
#[derive(Debug, PartialEq, Eq, Structural, Clone, Copy)]
pub enum RunPhase {
    /// Probing the configured address range for devices already present.
    Enumerating,
    /// Hailing for unassigned devices and assigning them free addresses.
    Assigning,
    /// The round is over.
    Done,
}

/// The state of one discovery round.
pub struct DiscoveryRun {
    known_ids: HashSet<u8>,
    max_id: u8,
    probe_at: u8,
    phase: RunPhase,
    enumerated: Ghost<Set<u8>>,
    assigned: Ghost<Seq<u8>>,
}

impl DiscoveryRun {
    /// The round's phase.
    pub closed spec fn phase(&self) -> RunPhase {
        self.phase
    }

    /// The addresses known to hold a device: those that answered a probe,
    /// and those this round has assigned.
    pub closed spec fn known_ids(&self) -> Set<u8> {
        self.known_ids@
    }

    /// The highest address the enumeration phase probes.
    pub closed spec fn max_id(&self) -> u8 {
        self.max_id
    }

    /// The address the enumeration phase probes next.
    pub closed spec fn probe_at(&self) -> u8 {
        self.probe_at
    }

    /// What the enumeration phase found: the known set at the moment
    /// enumeration ended, empty while it still runs.
    pub closed spec fn enumerated_ids(&self) -> Set<u8> {
        self.enumerated@
    }

    /// The addresses this round has assigned, in order.
    pub closed spec fn assigned_ids(&self) -> Seq<u8> {
        self.assigned@
    }

    /// The round's invariant: every assigned address is fresh — in the
    /// assignable range, absent from the enumeration result, distinct from
    /// every other — and recorded as known; what enumeration found stays
    /// known.
    pub closed spec fn wf(&self) -> bool {
        &&& self.assigned@.no_duplicates()
        &&& forall|i: int|
            0 <= i < self.assigned@.len() ==> FIRST_FREE_ID <= #[trigger] self.assigned@[i]
                <= LAST_FREE_ID && !self.enumerated@.contains(self.assigned@[i])
                && self.known_ids@.contains(self.assigned@[i])
        &&& self.enumerated@.subset_of(self.known_ids@)
        &&& (self.phase is Enumerating ==> self.enumerated@ == Set::<u8>::empty()
            && self.assigned@ == Seq::<u8>::empty() && FIRST_FREE_ID <= self.probe_at
            <= self.max_id)
    }

    /// A fresh round that will probe addresses 5 through `max_id`, or skip
    /// straight to assignment when that range is empty.
    pub fn new(max_id: u8) -> (r: Self)
        ensures
            r.wf(),
            r.known_ids() == Set::<u8>::empty(),
            r.enumerated_ids() == Set::<u8>::empty(),
            r.assigned_ids() == Seq::<u8>::empty(),
            r.max_id() == max_id,
            r.phase() == if max_id >= FIRST_FREE_ID {
                RunPhase::Enumerating
            } else {
                RunPhase::Assigning
            },
            r.phase() is Enumerating ==> r.probe_at() == FIRST_FREE_ID,
    {
        let phase = if max_id >= FIRST_FREE_ID {
            RunPhase::Enumerating
        } else {
            RunPhase::Assigning
        };
        DiscoveryRun {
            known_ids: HashSet::new(),
            max_id,
            probe_at: FIRST_FREE_ID,
            phase,
            enumerated: Ghost(Set::empty()),
            assigned: Ghost(Seq::empty()),
        }
    }

    /// The address to probe now; one per enumeration step, nothing once
    /// enumeration is over.
    pub fn next_probe(&self) -> (r: Option<u8>)
        ensures
            r == if self.phase() is Enumerating {
                Some(self.probe_at())
            } else {
                None::<u8>
            },
    {
        match self.phase {
            RunPhase::Enumerating => Some(self.probe_at),
            _ => None,
        }
    }

    /// Report what the probe of [`Self::next_probe`] found: the address a
    /// configuration report came back from, or nothing on a timeout — the
    /// expected outcome for an unoccupied address.  The round advances to
    /// the next address, or into assignment after the last one, fixing the
    /// enumeration result.
    pub fn record_probe(&mut self, responded: Option<u8>)
        requires
            old(self).wf(),
            old(self).phase() is Enumerating,
        ensures
            final(self).wf(),
            final(self).known_ids() == match responded {
                Some(id) => old(self).known_ids().insert(id),
                None => old(self).known_ids(),
            },
            final(self).assigned_ids() == old(self).assigned_ids(),
            final(self).max_id() == old(self).max_id(),
            old(self).probe_at() < old(self).max_id() ==> final(self).phase() is Enumerating
                && final(self).probe_at() == old(self).probe_at() + 1
                && final(self).enumerated_ids() == Set::<u8>::empty(),
            old(self).probe_at() >= old(self).max_id() ==> final(self).phase() is Assigning
                && final(self).enumerated_ids() == final(self).known_ids(),
    {
        if let Some(id) = responded {
            self.known_ids.insert(id);
        }
        if self.probe_at < self.max_id {
            self.probe_at = self.probe_at + 1;
        } else {
            self.phase = RunPhase::Assigning;
            proof {
                self.enumerated@ = self.known_ids@;
            }
        }
    }

    /// Claim the lowest free address for a device that announced itself:
    /// the address handed out is recorded as assigned and known.  Once no
    /// address is free the round is over and nothing is handed out.
    pub fn claim_address(&mut self) -> (r: Option<u8>)
        requires
            old(self).wf(),
            old(self).phase() is Assigning,
        ensures
            final(self).wf(),
            final(self).enumerated_ids() == old(self).enumerated_ids(),
            final(self).max_id() == old(self).max_id(),
            match r {
                Some(id) => {
                    &&& FIRST_FREE_ID <= id <= LAST_FREE_ID
                    &&& !old(self).known_ids().contains(id)
                    &&& forall|j: u8| FIRST_FREE_ID <= j < id ==> old(self).known_ids().contains(j)
                    &&& final(self).known_ids() == old(self).known_ids().insert(id)
                    &&& final(self).assigned_ids() == old(self).assigned_ids().push(id)
                    &&& final(self).phase() is Assigning
                },
                None => {
                    &&& forall|j: u8|
                        FIRST_FREE_ID <= j <= LAST_FREE_ID ==> old(self).known_ids().contains(j)
                    &&& final(self).known_ids() == old(self).known_ids()
                    &&& final(self).assigned_ids() == old(self).assigned_ids()
                    &&& final(self).phase() is Done
                },
            },
    {
        let claimed = next_id(&mut self.known_ids);
        match claimed {
            Some(id) => {
                proof {
                    self.assigned@ = self.assigned@.push(id);
                }
                Some(id)
            },
            None => {
                self.phase = RunPhase::Done;
                None
            },
        }
    }

    /// Close the round: a hail went unanswered, so no more devices are
    /// announcing themselves.
    pub fn finish(&mut self)
        requires
            old(self).wf(),
        ensures
            final(self).wf(),
            final(self).phase() is Done,
            final(self).known_ids() == old(self).known_ids(),
            final(self).enumerated_ids() == old(self).enumerated_ids(),
            final(self).assigned_ids() == old(self).assigned_ids(),
    {
        self.phase = RunPhase::Done;
    }

    /// Whether the round is over.
    pub fn is_done(&self) -> (r: bool)
        ensures
            r == (self.phase() is Done),
    {
        match self.phase {
            RunPhase::Done => true,
            _ => false,
        }
    }
}

/// Law: the addresses one discovery round assigns are pairwise distinct,
/// lie in the assignable range, and never collide with an address that
/// already held a device when enumeration ended.
pub proof fn lemma_discovery_uniqueness(run: &DiscoveryRun)
    requires
        run.wf(),
    ensures
        run.assigned_ids().no_duplicates(),
        forall|i: int|
            0 <= i < run.assigned_ids().len() ==> FIRST_FREE_ID <= #[trigger] run.assigned_ids()[i]
                <= LAST_FREE_ID && !run.enumerated_ids().contains(run.assigned_ids()[i]),
{
}

} // verus!
