use crate::configuration::global_configuration::names_of;
use vstd::prelude::*;

verus! {

/// How a module's task ended.
#[derive(Debug, Clone, PartialEq, Eq)]
pub enum TaskOutcome {
    Completed,
    /// The task failed, for the reason given.
    Failed(String),
}

/// What the manager reports of a declared module.
#[derive(Debug, Clone, PartialEq, Eq)]
pub enum ModuleStatus {
    /// No route reaches the module, so it was never started.
    NotRouted,
    /// The module's task was started and has not ended.
    Started,
    /// The module's task ended normally.
    Completed,
    /// The module's task failed, for the reason given.
    Failed(String),
}

/// The status that a started module gets when its task ends with `outcome`.
pub open spec fn ended_as(outcome: TaskOutcome) -> ModuleStatus {
    match outcome {
        TaskOutcome::Completed => ModuleStatus::Completed,
        TaskOutcome::Failed(reason) => ModuleStatus::Failed(reason),
    }
}

/// The status of every module of a launched graph in which the first `running`
/// of `count` modules were started and the others were not.
pub open spec fn launched_as(running: nat, count: nat) -> Seq<ModuleStatus> {
    Seq::new(
        count,
        |i: int|
            if i < running {
                ModuleStatus::Started
            } else {
                ModuleStatus::NotRouted
            },
    )
}

/// None of the modules is still running.
pub open spec fn all_ended(statuses: Seq<ModuleStatus>) -> bool {
    forall|i: int| 0 <= i < statuses.len() ==> !(#[trigger] statuses[i] is Started)
}

/// Keeps the status of every module of a launched graph while the tasks end,
/// in whatever order they end.
///
/// The modules that were started come first, in the order in which they were
/// launched; those that no route reaches follow.
pub struct Supervisor {
    names: Vec<String>,
    statuses: Vec<ModuleStatus>,
}

impl Supervisor {
    /// The names of the modules.
    pub closed spec fn names(&self) -> Seq<Seq<char>> {
        names_of(self.names@)
    }

    /// The status of each module, at the position of its name.
    pub closed spec fn statuses(&self) -> Seq<ModuleStatus> {
        self.statuses@
    }

    /// Begins to supervise: the modules `running` were started, the modules
    /// `idle` were not.
    pub fn new(running: Vec<String>, idle: Vec<String>) -> (supervisor: Self)
        ensures
            supervisor.names() == names_of(running@) + names_of(idle@),
            supervisor.statuses() == launched_as(
                running@.len(),
                running@.len() + idle@.len(),
            ),
    {
        let mut names = running;
        let mut others = idle;
        let mut statuses: Vec<ModuleStatus> = Vec::new();
        while statuses.len() < names.len()
            invariant
                statuses.len() <= names.len(),
                forall|i: int| 0 <= i < statuses.len() ==> statuses[i] is Started,
            decreases names.len() - statuses.len(),
        {
            statuses.push(ModuleStatus::Started);
        }
        let ghost started = running@.len();
        let mut i: usize = 0;
        while i < others.len()
            invariant
                i <= others.len(),
                statuses.len() == started + i,
                forall|k: int| 0 <= k < started ==> statuses[k] is Started,
                forall|k: int| started <= k < statuses.len() ==> statuses[k] is NotRouted,
            decreases others.len() - i,
        {
            statuses.push(ModuleStatus::NotRouted);
            i += 1;
        }
        names.append(&mut others);
        let supervisor = Supervisor { names, statuses };
        assert(supervisor.names() =~= names_of(running@) + names_of(idle@));
        assert(supervisor.statuses() =~= launched_as(started, started + idle@.len()));
        supervisor
    }

    /// Records that the task of the module at `index` ended with `outcome`.
    ///
    /// The outcome counts if the module was started and has not ended before;
    /// the result says whether it did. No other module's status changes, so a
    /// failure stays with the module that failed.
    pub fn record(&mut self, index: usize, outcome: TaskOutcome) -> (recorded: bool)
        ensures
            final(self).names() == old(self).names(),
            recorded == (index < old(self).statuses().len() && old(
                self,
            ).statuses()[index as int] is Started),
            recorded ==> final(self).statuses() == old(self).statuses().update(
                index as int,
                ended_as(outcome),
            ),
            !recorded ==> final(self).statuses() == old(self).statuses(),
    {
        if index >= self.statuses.len() {
            return false;
        }
        match &self.statuses[index] {
            ModuleStatus::Started => {},
            _ => {
                return false;
            },
        }
        self.statuses[index] = match outcome {
            TaskOutcome::Completed => ModuleStatus::Completed,
            TaskOutcome::Failed(reason) => ModuleStatus::Failed(reason),
        };
        true
    }

    /// Whether every task that was started has ended. The manager's own run
    /// is over exactly then.
    pub fn finished(&self) -> (done: bool)
        ensures
            done == all_ended(self.statuses()),
    {
        let mut i: usize = 0;
        while i < self.statuses.len()
            invariant
                i <= self.statuses.len(),
                forall|k: int| 0 <= k < i ==> !(#[trigger] self.statuses[k] is Started),
            decreases self.statuses.len() - i,
        {
            match &self.statuses[i] {
                ModuleStatus::Started => {
                    return false;
                },
                _ => {},
            }
            i += 1;
        }
        true
    }

    /// How many modules are supervised, started or not.
    pub fn len(&self) -> (count: usize)
        ensures
            count == self.statuses().len(),
    {
        self.statuses.len()
    }

    /// The status of the module at `index`, if there is one.
    pub fn status(&self, index: usize) -> (status: Option<&ModuleStatus>)
        ensures
            match status {
                Some(status) => index < self.statuses().len() && *status
                    == self.statuses()[index as int],
                None => index >= self.statuses().len(),
            },
    {
        if index < self.statuses.len() {
            Some(&self.statuses[index])
        } else {
            None
        }
    }
}

} // verus!
