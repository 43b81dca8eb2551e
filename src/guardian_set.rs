//! Versioned guardian sets and the registry that supersedes them.
use vstd::prelude::*;

use crate::error::BridgeError;

verus! {

/// Creation time of the first mainnet guardian set, which was never expired
/// and is therefore never active.
pub const LEGACY_INITIAL_CREATION_TIME: u32 = 1628099186;

/// A set of guardian keys. The keys are Ethereum-style 20-byte addresses.
pub struct GuardianSet {
    /// Incrementing version number of this set.
    pub index: u32,
    /// Ethereum-style public keys.
    pub keys: Vec<[u8; 20]>,
    /// Time at which this set became active.
    pub creation_time: u32,
    /// Time after which messages signed by this set are no longer valid; zero
    /// for the current, unbounded set.
    pub expiration_time: u32,
}

impl GuardianSet {
    /// Whether this is the legacy first set that is always inactive.
    pub open spec fn is_legacy_initial(&self) -> bool {
        self.index == 0 && self.creation_time == LEGACY_INITIAL_CREATION_TIME
    }

    /// Whether the set may verify signatures at time `t`.
    pub open spec fn active_at(&self, t: u32) -> bool {
        !self.is_legacy_initial() && (self.expiration_time == 0 || self.expiration_time >= t)
    }

    /// Account size of a guardian set with `num_guardians` keys.
    pub open spec fn spec_size(num_guardians: int) -> int {
        4 + 4 + num_guardians * 20 + 4 + 4
    }

    pub fn compute_size(num_guardians: usize) -> (r: usize)
        requires
            Self::spec_size(num_guardians as int) <= usize::MAX,
        ensures
            r == Self::spec_size(num_guardians as int),
    {
        4 + 4 + num_guardians * 20 + 4 + 4
    }

    pub fn is_active(&self, timestamp: &u32) -> (r: bool)
        ensures
            r == self.active_at(*timestamp),
    {
        if self.index == 0 && self.creation_time == LEGACY_INITIAL_CREATION_TIME {
            false
        } else {
            self.expiration_time == 0 || self.expiration_time >= *timestamp
        }
    }
}

/// A set with no expiration time is active at every time, except the legacy
/// first set, which is active at none.
pub proof fn lemma_unbounded_set_active(set: GuardianSet, t: u32)
    requires
        set.expiration_time == 0,
    ensures
        set.active_at(t) <==> !(set.index == 0 && set.creation_time == LEGACY_INITIAL_CREATION_TIME),
{
}

/// All guardian sets ever installed; the set at position `i` has index `i`,
/// and the last one is the current set.
pub struct GuardianSetRegistry {
    sets: Vec<GuardianSet>,
}

impl View for GuardianSetRegistry {
    type V = Seq<GuardianSet>;

    closed spec fn view(&self) -> Seq<GuardianSet> {
        self.sets@
    }
}

impl GuardianSetRegistry {
    pub open spec fn wf(&self) -> bool {
        &&& 1 <= self@.len() <= u32::MAX as int + 1
        &&& forall|i: int| 0 <= i < self@.len() ==> #[trigger] self@[i].index == i
    }

    pub open spec fn spec_current_index(&self) -> u32 {
        (self@.len() - 1) as u32
    }

    /// A registry whose only set, of index zero, is current and unbounded.
    pub fn new(keys: Vec<[u8; 20]>, creation_time: u32) -> (r: Result<Self, BridgeError>)
        ensures
            keys@.len() == 0 <==> r == Err::<Self, BridgeError>(BridgeError::EmptyGuardianSet),
            r matches Ok(reg) ==> reg.wf() && reg@ == seq![
                GuardianSet { index: 0, keys, creation_time, expiration_time: 0 },
            ],
    {
        if keys.len() == 0 {
            return Err(BridgeError::EmptyGuardianSet);
        }
        let mut sets: Vec<GuardianSet> = Vec::new();
        sets.push(GuardianSet { index: 0, keys, creation_time, expiration_time: 0 });
        let reg = GuardianSetRegistry { sets };
        assert(reg@ =~= seq![
            GuardianSet { index: 0, keys, creation_time, expiration_time: 0 },
        ]);
        Ok(reg)
    }

    /// Index of the current set.
    pub fn current_index(&self) -> (r: u32)
        requires
            self.wf(),
        ensures
            r == self.spec_current_index(),
    {
        (self.sets.len() - 1) as u32
    }

    /// The set with the given index, if one was installed.
    pub fn get(&self, index: u32) -> (r: Option<&GuardianSet>)
        requires
            self.wf(),
        ensures
            index < self@.len() ==> r == Some(&self@[index as int]),
            index >= self@.len() ==> r is None,
    {
        if (index as usize) < self.sets.len() {
            Some(&self.sets[index as usize])
        } else {
            None
        }
    }

    /// Whether the set with the given index may verify signatures at
    /// `at_time`; an unknown index is a lookup failure.
    pub fn is_active(&self, index: u32, at_time: u32) -> (r: Result<bool, BridgeError>)
        requires
            self.wf(),
        ensures
            index >= self@.len() ==> r == Err::<bool, BridgeError>(BridgeError::GuardianSetNotFound),
            index < self@.len() ==> r == Ok::<bool, BridgeError>(self@[index as int].active_at(at_time)),
    {
        match self.get(index) {
            Some(set) => Ok(set.is_active(&at_time)),
            None => Err(BridgeError::GuardianSetNotFound),
        }
    }

    /// Installs a new current set. The previous current set expires at
    /// `at_time + ttl` (saturating at the largest time); the new set is created
    /// at `at_time` and does not expire.
    pub fn install(&mut self, new_index: u32, keys: Vec<[u8; 20]>, at_time: u32, ttl: u32) -> (r:
        Result<(), BridgeError>)
        requires
            old(self).wf(),
        ensures
            final(self).wf(),
            new_index != old(self).spec_current_index() + 1 ==> r == Err::<(), BridgeError>(
                BridgeError::InvalidGuardianSetIndex,
            ),
            new_index == old(self).spec_current_index() + 1 && keys@.len() == 0 ==> r == Err::<
                (),
                BridgeError,
            >(BridgeError::EmptyGuardianSet),
            r is Err ==> final(self)@ == old(self)@,
            r is Ok <==> new_index == old(self).spec_current_index() + 1 && keys@.len() > 0,
            r is Ok ==> {
                let n = old(self)@.len();
                let prev = old(self)@[n - 1];
                final(self)@ == old(self)@.update(
                    n - 1,
                    GuardianSet {
                        expiration_time: if at_time + ttl > u32::MAX {
                            u32::MAX
                        } else {
                            (at_time + ttl) as u32
                        },
                        ..prev
                    },
                ).push(GuardianSet { index: new_index, keys, creation_time: at_time, expiration_time: 0 })
            },
    {
        let current = self.current_index();
        if current == u32::MAX || new_index != current + 1 {
            return Err(BridgeError::InvalidGuardianSetIndex);
        }
        if keys.len() == 0 {
            return Err(BridgeError::EmptyGuardianSet);
        }
        let ghost before = self.sets@;
        let mut prev = self.sets.pop().unwrap();
        prev.expiration_time = at_time.saturating_add(ttl);
        self.sets.push(prev);
        self.sets.push(GuardianSet { index: new_index, keys, creation_time: at_time, expiration_time: 0 });
        proof {
            let n = before.len();
            assert(self.sets@ =~= before.update(n - 1, self.sets@[n - 1]).push(self.sets@[n as int]));
        }
        Ok(())
    }
}

} // verus!
