//! Running a simulation: what is checked before it starts, what is started, and when it shuts down.
use crate::keyed::Key;
use crate::node::{ActivityDefinition, LightningError};
use crate::primitives::PublicKey;
use crate::simulation::{
    activity_error, amounts_of, controlled_infos, controlled_networks, networks_error, Simulation,
};
use vstd::prelude::*;

verus! {

/// How often the results of a simulation are logged, in seconds.
pub const RESULTS_LOG_INTERVAL: u64 = 60;

/// What happens while a simulation runs.
#[derive(Debug, Clone, Copy, PartialEq, Eq, Structural)]
pub enum RunEvent {
    /// The generators or producers of the activity could not be set up.
    SetupFailed,
    /// A task exited with an error.
    TaskFailed,
    /// A task completed, or exited because the simulation shuts down.
    TaskCompleted,
    /// All producers of activity have finished, so that there is nothing left to do.
    ProducersFinished,
    /// The total time of the simulation has elapsed.
    TotalTimeElapsed,
}

/// Whether the simulation shuts down when something happens. Everything but the completion of a task ends it.
pub fn shuts_down(event: RunEvent) -> (r: bool)
    ensures
        r <==> event !is TaskCompleted,
{
    match event {
        RunEvent::TaskCompleted => false,
        _ => true,
    }
}

/// What a simulation that was found to be valid runs with.
#[derive(Debug)]
pub struct RunPlan {
    /// The time after which the simulation shuts down, in seconds. It runs forever if there is none.
    pub total_time: Option<u64>,
    /// The number of activities that were defined, which is zero for random activity.
    pub activities: usize,
    /// The number of nodes that are controlled.
    pub nodes: usize,
}

/// Whether the outcome of checking an activity is one that the amounts of its flows allow.
pub open spec fn is_activity_check(
    sim: Simulation,
    activity: Seq<ActivityDefinition>,
    message: Option<Seq<char>>,
) -> bool {
    exists|amounts: Seq<u64>| #[trigger]
        amounts_of(activity, amounts) && activity_error(
            sim.nodes@.dom(),
            controlled_infos(sim.nodes.entries()),
            activity,
            amounts,
        ) == message
}

impl Simulation {
    /// Checks that a simulation can be run: its nodes are on one network other than the main network, and the activity
    /// is valid for them.
    pub fn internal_run(&self, activity: &Vec<ActivityDefinition>) -> (r: Result<RunPlan, LightningError>)
        requires
            self.wf(),
            forall|i: int| 0 <= i < activity@.len() ==> (#[trigger] activity@[i]).amount_msat.wf(),
        ensures
            match networks_error(controlled_networks(self.nodes.entries())) {
                Some(m) => r matches Err(LightningError::ValidationError(s)) && s@ == m,
                None => match r {
                    Ok(plan) => {
                        &&& is_activity_check(*self, activity@, None)
                        &&& plan.total_time == self.cfg.total_time
                        &&& plan.activities == activity@.len()
                        &&& plan.nodes == self.nodes.entries().len()
                    },
                    Err(LightningError::ValidationError(s)) => is_activity_check(*self, activity@, Some(s@)),
                    Err(_) => false,
                },
            },
    {
        if let Err(e) = self.validate_node_network() {
            return Err(e);
        }
        if let Err(e) = self.validate_activity(activity) {
            return Err(e);
        }
        Ok(RunPlan { total_time: self.cfg.total_time, activities: activity.len(), nodes: self.nodes.len() })
    }

    /// The nodes whose events are consumed: those that are controlled and that activity is generated for.
    pub fn dispatch_consumers(&self, consuming_nodes: &Vec<PublicKey>) -> (r: Vec<PublicKey>)
        requires
            self.wf(),
        ensures
            r@.no_duplicates(),
            forall|k: PublicKey| #[trigger]
                r@.contains(k) <==> self.nodes@.dom().contains(k) && consuming_nodes@.contains(k),
    {
        let mut list: Vec<PublicKey> = Vec::new();
        let n: usize = self.nodes.len();
        let ghost entries = self.nodes.entries();
        let mut i: usize = 0;
        proof {
            self.nodes.lemma_entries();
        }
        while i < n
            invariant
                self.wf(),
                entries == self.nodes.entries(),
                n == entries.len(),
                i <= n,
                list@.no_duplicates(),
                forall|k: PublicKey| #[trigger]
                    list@.contains(k) <==> consuming_nodes@.contains(k) && exists|j: int|
                        0 <= j < i && (#[trigger] entries[j]).0 == k,
            decreases n - i,
        {
            let ghost before = list@;
            let id = self.nodes.entry_at(i).0;
            let wanted = holds_key(consuming_nodes, &id);
            proof {
                assert(id == entries[i as int].0);
                assert(!before.contains(id)) by {
                    if before.contains(id) {
                        let j = choose|j: int| 0 <= j < i && (#[trigger] entries[j]).0 == id;
                        assert(entries[j].0 == entries[i as int].0);
                    }
                }
            }
            if wanted {
                list.push(id);
            }
            proof {
                assert forall|k: PublicKey| #[trigger] list@.contains(k) <==> consuming_nodes@.contains(k) && exists|
                    j: int,
                |
                    0 <= j < i + 1 && (#[trigger] entries[j]).0 == k by {
                    if wanted {
                        assert(list@ =~= before.push(id));
                        assert(list@[before.len() as int] == id);
                        if before.contains(k) {
                            let j = choose|j: int| 0 <= j < before.len() && before[j] == k;
                            assert(list@[j] == k);
                        }
                        if list@.contains(k) && k != id {
                            let j = choose|j: int| 0 <= j < list@.len() && list@[j] == k;
                            assert(before[j] == k);
                        }
                    }
                    if consuming_nodes@.contains(k) && exists|j: int| 0 <= j < i + 1 && (#[trigger] entries[j]).0 == k {
                        let j = choose|j: int| 0 <= j < i + 1 && (#[trigger] entries[j]).0 == k;
                        if j < i {
                            assert(before.contains(k));
                        }
                    }
                }
            }
            i += 1;
        }
        assert forall|k: PublicKey| #[trigger] list@.contains(k) <==> self.nodes@.dom().contains(k)
            && consuming_nodes@.contains(k) by {
            if self.nodes@.dom().contains(k) {
                let j = choose|j: int| 0 <= j < entries.len() && (#[trigger] entries[j]).0 == k;
                assert(entries[j].0 == k);
            }
        }
        list
    }
}

/// Whether a list holds a key.
pub fn holds_key(keys: &Vec<PublicKey>, key: &PublicKey) -> (r: bool)
    ensures
        r == keys@.contains(*key),
{
    let mut i: usize = 0;
    while i < keys.len()
        invariant
            i <= keys@.len(),
            forall|j: int| 0 <= j < i ==> keys@[j] != *key,
        decreases keys@.len() - i,
    {
        if keys[i].same(key) {
            assert(keys@[i as int] == *key);
            return true;
        }
        i += 1;
    }
    false
}

} // verus!
