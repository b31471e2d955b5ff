//! What is counted and measured for monitoring.

use vstd::prelude::*;

verus! {

/// A counter after `by` more events. It starts over when it has run through its range.
pub open spec fn counted(counter: u64, by: nat) -> u64 {
    ((counter + by) % 0x1_0000_0000_0000_0000) as u64
}

/// Counts of the leaves that have come and gone.
#[derive(Clone, Copy, Debug, PartialEq, Eq)]
pub struct Metrics {
    /// Number of activated heads.
    pub activated_heads_total: u64,
    /// Number of deactivated heads.
    pub deactivated_heads_total: u64,
}

impl Metrics {
    /// One more head was activated.
    pub open spec fn activated(self) -> Metrics {
        Metrics { activated_heads_total: counted(self.activated_heads_total, 1), ..self }
    }

    /// `n` more heads were deactivated.
    pub open spec fn deactivated(self, n: nat) -> Metrics {
        Metrics { deactivated_heads_total: counted(self.deactivated_heads_total, n), ..self }
    }

    /// Nothing has been counted yet.
    pub fn new() -> (metrics: Self)
        ensures
            metrics == (Metrics { activated_heads_total: 0, deactivated_heads_total: 0 }),
    {
        Metrics { activated_heads_total: 0, deactivated_heads_total: 0 }
    }

    /// Counts the activation of a head.
    pub fn on_head_activated(&mut self)
        ensures
            *final(self) == old(self).activated(),
    {
        self.activated_heads_total = self.activated_heads_total.wrapping_add(1);
    }

    /// Counts the deactivation of a head.
    pub fn on_head_deactivated(&mut self)
        ensures
            *final(self) == old(self).deactivated(1),
    {
        self.deactivated_heads_total = self.deactivated_heads_total.wrapping_add(1);
    }
}

/// How often the fill levels of the channels are recorded, in milliseconds.
pub const METRONOME_PERIOD_MILLIS: u64 = 950;

/// A running subsystem. `M` are the meters of its channels.
pub struct SubsystemInstance<M> {
    /// Name of the subsystem.
    pub name: &'static str,
    /// Meters of its channels.
    pub meters: M,
}

/// A subsystem that the overseer holds. It runs or it does not.
pub struct OverseenSubsystem<M> {
    /// The running subsystem, if it runs.
    pub instance: Option<SubsystemInstance<M>>,
}

impl<M: Clone> OverseenSubsystem<M> {
    /// The name and the meters of the subsystem, if it runs.
    pub fn name_and_meters(&self) -> (extract: Option<(&'static str, M)>)
        ensures
            match extract {
                Some((name, meters)) => {
                    &&& self.instance matches Some(instance)
                    &&& name == instance.name
                    &&& cloned(instance.meters, meters)
                },
                None => self.instance is None,
            },
    {
        match &self.instance {
            Some(instance) => Some((instance.name, instance.meters.clone())),
            None => None,
        }
    }
}

/// The entries of the subsystems that run, in order.
pub open spec fn running<M>(subsystems: Seq<Option<(&'static str, M)>>) -> Seq<(&'static str, M)>
    decreases subsystems.len(),
{
    if subsystems.len() == 0 {
        Seq::empty()
    } else {
        let before = running(subsystems.drop_last());
        match subsystems.last() {
            Some(entry) => before.push(entry),
            None => before,
        }
    }
}

/// Reads the meters of every subsystem that runs, in order.
pub fn fill_levels<M, R, F: Fn(&M) -> R>(
    subsystems: &Vec<Option<(&'static str, M)>>,
    read: F,
) -> (levels: Vec<(&'static str, R)>)
    requires
        forall|meters: &M| call_requires(read, (meters,)),
    ensures
        levels@.len() == running(subsystems@).len(),
        forall|i: int|
            0 <= i < levels@.len() ==> {
                &&& (#[trigger] levels@[i]).0 == running(subsystems@)[i].0
                &&& call_ensures(read, (&running(subsystems@)[i].1,), levels@[i].1)
            },
{
    let mut levels: Vec<(&'static str, R)> = Vec::new();
    let mut i: usize = 0;
    while i < subsystems.len()
        invariant
            i <= subsystems@.len(),
            forall|meters: &M| call_requires(read, (meters,)),
            levels@.len() == running(subsystems@.take(i as int)).len(),
            forall|k: int|
                0 <= k < levels@.len() ==> {
                    let entry = running(subsystems@.take(i as int))[k];
                    &&& (#[trigger] levels@[k]).0 == entry.0
                    &&& call_ensures(read, (&entry.1,), levels@[k].1)
                },
        decreases subsystems@.len() - i,
    {
        assert(subsystems@.take(i + 1).drop_last() =~= subsystems@.take(i as int));
        if let Some((name, meters)) = &subsystems[i] {
            levels.push((*name, read(meters)));
        }
        i += 1;
    }
    assert(subsystems@.take(i as int) =~= subsystems@);
    levels
}

} // verus!
