use crate::configuration::global_configuration::{
    names_of, route_views_of, RouteConfiguration, RouteView,
};
use crate::messaging::message::Message;
use crate::modules::channel::{clone_receiver, clone_sender, open_channel, Channel};
use crate::modules::error::{ManagerError, ManagerErrorView};
use crate::modules::module::{state_of, ModuleState, ModuleTrait, UnsupportedOperation};
use crate::modules::topology::{
    check_endpoints, check_references, dangling_at, endpoints, has_dangling, lemma_routable_step,
    routable, routes_valid, wiring_refused,
};
use crate::modules::wiring::{
    accepted, inbox_after, lemma_accepted_step, lemma_wired_none, lemma_wired_step, outbox_after,
    same_abilities, state_after, wired,
};
use async_channel::{Receiver, Sender};
use tokio::task::JoinHandle;
use vstd::prelude::*;

verus! {

/// The names among `names` whose mark in `flags` is `want`, in their order.
pub open spec fn selected(names: Seq<Seq<char>>, flags: Seq<bool>, want: bool) -> Seq<Seq<char>>
    decreases names.len(),
{
    if names.len() == 0 || flags.len() != names.len() {
        Seq::empty()
    } else {
        let rest = selected(names.drop_last(), flags.drop_last(), want);
        if flags.last() == want {
            rest.push(names.last())
        } else {
            rest
        }
    }
}

/// A name is among the selected ones exactly if it stands in `names` at a
/// position whose mark is `want`.
pub proof fn lemma_selected_contains(
    names: Seq<Seq<char>>,
    flags: Seq<bool>,
    want: bool,
    name: Seq<char>,
)
    requires
        flags.len() == names.len(),
    ensures
        selected(names, flags, want).contains(name) <==> exists|i: int|
            0 <= i < names.len() && names[i] == name && flags[i] == want,
    decreases names.len(),
{
    if names.len() > 0 {
        let shorter = names.drop_last();
        let fewer = flags.drop_last();
        let rest = selected(shorter, fewer, want);
        let last = names.len() - 1;
        lemma_selected_contains(shorter, fewer, want, name);
        if selected(names, flags, want).contains(name) {
            if rest.contains(name) {
                let i = choose|i: int| 0 <= i < shorter.len() && shorter[i] == name && fewer[i] == want;
                assert(names[i] == name && flags[i] == want);
            } else {
                let k = choose|k: int|
                    0 <= k < selected(names, flags, want).len() && selected(names, flags, want)[k]
                        == name;
                assert(flags[last] == want);
                assert(selected(names, flags, want) == rest.push(names[last]));
                if k < rest.len() {
                    assert(rest[k] == name);
                }
                assert(names[last] == name);
            }
        }
        if exists|i: int| 0 <= i < names.len() && names[i] == name && flags[i] == want {
            let i = choose|i: int| 0 <= i < names.len() && names[i] == name && flags[i] == want;
            if i < last {
                assert(shorter[i] == name && fewer[i] == want);
                let k = choose|k: int| 0 <= k < rest.len() && rest[k] == name;
                if flags[last] == want {
                    assert(rest.push(names[last])[k] == name);
                }
            } else {
                assert(rest.push(names[last])[rest.len() as int] == name);
            }
        }
    }
}

/// The names of a list of running modules.
pub open spec fn running_names_of(running: Seq<(String, JoinHandle<()>)>) -> Seq<Seq<char>> {
    running.map_values(|entry: (String, JoinHandle<()>)| entry.0@)
}

/// What launching a graph leaves: the handles of the tasks that were started,
/// each under its module's name, the names of the modules that were not
/// started because no route reaches them, and the channels of the routes.
pub struct Launched {
    pub running: Vec<(String, JoinHandle<()>)>,
    pub idle: Vec<String>,
    pub channels: Vec<Channel>,
}

impl Launched {
    /// The names of the modules that were started, in the order of declaration.
    pub open spec fn running_names(&self) -> Seq<Seq<char>> {
        running_names_of(self.running@)
    }
}

/// Turns what a module answered when the route `route` handed it an endpoint
/// into what wiring makes of the answer: it goes on after an acceptance, and it
/// ends with `UnsupportedOperation`, under the names of the route and of the
/// module, after a refusal.
pub fn assignment_outcome(
    route: &String,
    module: &String,
    answer: Result<(), UnsupportedOperation>,
) -> (result: Result<(), ManagerError>)
    ensures
        match answer {
            Ok(()) => result is Ok,
            Err(_) => (result matches Err(error) && error@
                == ManagerErrorView::UnsupportedOperation(route@, module@)),
        },
{
    match answer {
        Ok(()) => Ok(()),
        Err(_) => Err(ManagerError::UnsupportedOperation(route.clone(), module.clone())),
    }
}

/// A live module under the name that the topology declares for it.
pub struct ModuleEntry<M> {
    pub name: String,
    pub module: M,
}

/// The instantiated modules of a topology, in the order of declaration, with
/// what wiring has made of them: which of them a route reaches, and the
/// channels of the routes.
///
/// No two modules of a graph share a name.
pub struct ModuleGraph<M> {
    entries: Vec<ModuleEntry<M>>,
    routed: Vec<bool>,
    channels: Vec<Channel>,
}

impl<M: ModuleTrait> ModuleGraph<M> {
    /// The names of the modules, in the order of declaration.
    pub closed spec fn names(&self) -> Seq<Seq<char>> {
        self.entries@.map_values(|entry: ModuleEntry<M>| entry.name@)
    }

    /// The modules, each at the position of its name.
    pub closed spec fn modules(&self) -> Seq<M> {
        self.entries@.map_values(|entry: ModuleEntry<M>| entry.module)
    }

    /// The state of each module, at the position of its name.
    pub open spec fn states(&self) -> Seq<ModuleState> {
        self.modules().map_values(|module: M| state_of(module))
    }

    /// For each module, whether the routes that were wired reach it.
    pub closed spec fn routed(&self) -> Seq<bool> {
        self.routed@
    }

    /// The channels of the routes that were wired, one per route.
    pub closed spec fn channels(&self) -> Seq<Channel> {
        self.channels@
    }

    /// No name stands twice, and every name has its module and its mark.
    pub open spec fn wf(&self) -> bool {
        &&& self.names().no_duplicates()
        &&& self.modules().len() == self.names().len()
        &&& self.routed().len() == self.names().len()
    }

    /// A graph without modules.
    pub fn new() -> (graph: Self)
        ensures
            graph.wf(),
            graph.names() == Seq::<Seq<char>>::empty(),
            graph.modules() == Seq::<M>::empty(),
            graph.routed() == Seq::<bool>::empty(),
            graph.channels() == Seq::<Channel>::empty(),
    {
        let graph = ModuleGraph { entries: Vec::new(), routed: Vec::new(), channels: Vec::new() };
        assert(graph.names() =~= Seq::<Seq<char>>::empty());
        assert(graph.modules() =~= Seq::<M>::empty());
        graph
    }

    /// How many modules the graph holds.
    pub fn len(&self) -> (count: usize)
        ensures
            count == self.names().len(),
    {
        self.entries.len()
    }

    /// How many channels the graph holds: one per route, once it is wired.
    pub fn channel_count(&self) -> (count: usize)
        ensures
            count == self.channels().len(),
    {
        self.channels.len()
    }

    /// The module at position `m`, if there is one.
    pub fn module(&self, m: usize) -> (module: Option<&M>)
        ensures
            match module {
                Some(module) => m < self.modules().len() && *module == self.modules()[m as int],
                None => m >= self.modules().len(),
            },
    {
        if m < self.entries.len() {
            Some(&self.entries[m].module)
        } else {
            None
        }
    }

    /// Whether the routes that were wired reach the module at position `m`.
    pub fn is_routed(&self, m: usize) -> (reached: bool)
        ensures
            reached == (m < self.routed().len() && self.routed()[m as int]),
    {
        m < self.routed.len() && self.routed[m]
    }

    /// The channel of the route at position `r`, if there is one.
    pub fn channel(&self, r: usize) -> (channel: Option<&Channel>)
        ensures
            match channel {
                Some(channel) => r < self.channels().len() && *channel == self.channels()[r as int],
                None => r >= self.channels().len(),
            },
    {
        if r < self.channels.len() {
            Some(&self.channels[r])
        } else {
            None
        }
    }

    /// Finds the module that goes by `name`.
    pub fn index_of(&self, name: &String) -> (found: Option<usize>)
        ensures
            match found {
                Some(m) => m < self.names().len() && self.names()[m as int] == name@,
                None => !self.names().contains(name@),
            },
    {
        let mut m: usize = 0;
        while m < self.entries.len()
            invariant
                m <= self.entries.len(),
                forall|k: int| 0 <= k < m ==> self.names()[k] != name@,
            decreases self.entries.len() - m,
        {
            if self.entries[m].name == *name {
                return Some(m);
            }
            m += 1;
        }
        None
    }

    /// Takes a live, not yet wired module into the graph under its declared
    /// name. A name that the graph already holds is refused, and the graph
    /// stays as it was.
    pub fn insert(&mut self, name: String, module: M) -> (result: Result<(), ManagerError>)
        requires
            old(self).wf(),
        ensures
            final(self).wf(),
            final(self).channels() == old(self).channels(),
            old(self).names().contains(name@) ==> {
                &&& result matches Err(error) && error@ == ManagerErrorView::DuplicateModuleName(
                    name@,
                )
                &&& final(self).names() == old(self).names()
                &&& final(self).modules() == old(self).modules()
                &&& final(self).routed() == old(self).routed()
            },
            !old(self).names().contains(name@) ==> {
                &&& result is Ok
                &&& final(self).names() == old(self).names().push(name@)
                &&& final(self).modules() == old(self).modules().push(module)
                &&& final(self).routed() == old(self).routed().push(false)
            },
    {
        match self.index_of(&name) {
            Some(_) => Err(ManagerError::DuplicateModuleName(name)),
            None => {
                let ghost before = self.names();
                self.entries.push(ModuleEntry { name, module });
                self.routed.push(false);
                let ghost after = self.names();
                assert(after =~= before.push(name@));
                assert(self.modules() =~= old(self).modules().push(module));
                assert forall|a: int, b: int|
                    0 <= a < after.len() && 0 <= b < after.len() && a != b implies after[a]
                    != after[b] by {
                    if a < before.len() && b < before.len() {
                        assert(before[a] != before[b]);
                    } else if a < before.len() {
                        assert(before[a] != name@);
                    } else {
                        assert(before[b] != name@);
                    }
                }
                Ok(())
            },
        }
    }

    /// Hands a clone of `sender` as outbox to each module that `senders` names,
    /// in their order, and marks each in `flags`. It stops at the first module
    /// that refuses.
    fn assign_outboxes(
        &mut self,
        route: &String,
        senders: &Vec<String>,
        sender: &Sender<Message>,
        flags: &mut Vec<bool>,
    ) -> (result: Result<(), ManagerError>)
        requires
            old(self).wf(),
            old(flags).len() == old(self).names().len(),
            forall|j: int|
                0 <= j < senders.len() ==> old(self).names().contains(#[trigger] senders[j]@),
        ensures
            final(self).wf(),
            final(self).names() == old(self).names(),
            final(self).routed() == old(self).routed(),
            final(self).channels() == old(self).channels(),
            final(flags).len() == old(flags).len(),
            same_abilities(old(self).states(), final(self).states()),
            match result {
                Ok(()) => forall|m: int|
                    0 <= m < old(self).names().len() ==> {
                        &&& (#[trigger] final(self).states()[m]) == (ModuleState {
                            outbox: outbox_after(
                                names_of(senders@),
                                old(self).names()[m],
                                *sender,
                                old(self).states()[m].outbox,
                            ),
                            ..old(self).states()[m]
                        })
                        &&& final(flags)[m] == (old(flags)[m] || names_of(senders@).contains(
                            old(self).names()[m],
                        ))
                        &&& names_of(senders@).contains(old(self).names()[m]) ==> old(
                            self,
                        ).states()[m].accepts_outbox
                    },
                Err(error) => exists|k: int|
                    0 <= k < senders.len() && error@ == ManagerErrorView::UnsupportedOperation(
                        route@,
                        #[trigger] senders[k]@,
                    ),
            },
    {
        let ghost names = self.names();
        let ghost start = self.states();
        let ghost marks = flags@;
        let ghost listed = names_of(senders@);
        let mut k: usize = 0;
        while k < senders.len()
            invariant
                k <= senders.len(),
                self.wf(),
                self.names() == names,
                names == old(self).names(),
                self.routed() == old(self).routed(),
                self.channels() == old(self).channels(),
                flags.len() == marks.len() == names.len(),
                marks == old(flags)@,
                start.len() == names.len(),
                start == old(self).states(),
                listed == names_of(senders@),
                forall|j: int| 0 <= j < senders.len() ==> names.contains(#[trigger] senders[j]@),
                forall|m: int|
                    0 <= m < names.len() ==> {
                        &&& (#[trigger] self.states()[m]) == (ModuleState {
                            outbox: outbox_after(
                                listed.take(k as int),
                                names[m],
                                *sender,
                                start[m].outbox,
                            ),
                            ..start[m]
                        })
                        &&& flags[m] == (marks[m] || listed.take(k as int).contains(names[m]))
                        &&& listed.take(k as int).contains(names[m]) ==> start[m].accepts_outbox
                    },
            decreases senders.len() - k,
        {
            let found = self.index_of(&senders[k]);
            assert(names.contains(senders[k as int]@));
            let at = found.unwrap();
            let ghost here = self.states();
            let ghost seen = listed.take(k as int);
            let ghost more = listed.take(k as int + 1);
            let answer = self.entries[at].module.set_outbox(Some(clone_sender(sender)));
            assert(self.names() =~= names);
            assert(self.modules().len() == names.len());
            match assignment_outcome(route, &senders[k], answer) {
                Ok(()) => {},
                Err(error) => {
                    assert(same_abilities(old(self).states(), self.states())) by {
                        assert forall|m: int| 0 <= m < names.len() implies (
                        #[trigger] self.states()[m]).accepts_inbox == start[m].accepts_inbox
                            && self.states()[m].accepts_outbox == start[m].accepts_outbox by {
                            if m != at {
                                assert(self.states()[m] == here[m]);
                            }
                        }
                    }
                    return Err(error);
                },
            }
            flags[at] = true;
            proof {
                assert(more =~= seen.push(senders[k as int]@));
                assert(more[k as int] == names[at as int]);
                assert forall|m: int| 0 <= m < names.len() implies {
                    &&& (#[trigger] self.states()[m]) == (ModuleState {
                        outbox: outbox_after(more, names[m], *sender, start[m].outbox),
                        ..start[m]
                    })
                    &&& flags[m] == (marks[m] || more.contains(names[m]))
                    &&& more.contains(names[m]) ==> start[m].accepts_outbox
                } by {
                    if m == at {
                        assert(here[m].accepts_outbox == start[m].accepts_outbox);
                    } else {
                        assert(names[m] != names[at as int]);
                        assert(self.states()[m] == here[m]);
                        if more.contains(names[m]) {
                            let j = choose|j: int| 0 <= j < more.len() && more[j] == names[m];
                            assert(seen[j] == names[m]);
                        }
                        if seen.contains(names[m]) {
                            let j = choose|j: int| 0 <= j < seen.len() && seen[j] == names[m];
                            assert(more[j] == names[m]);
                        }
                    }
                }
            }
            k += 1;
        }
        assert(listed.take(k as int) =~= listed);
        Ok(())
    }
    /// Hands a clone of `receiver` as inbox to each module that `receivers` names,
    /// in their order, and marks each in `flags`. It stops at the first module
    /// that refuses.
    fn assign_inboxes(
        &mut self,
        route: &String,
        receivers: &Vec<String>,
        receiver: &Receiver<Message>,
        flags: &mut Vec<bool>,
    ) -> (result: Result<(), ManagerError>)
        requires
            old(self).wf(),
            old(flags).len() == old(self).names().len(),
            forall|j: int|
                0 <= j < receivers.len() ==> old(self).names().contains(#[trigger] receivers[j]@),
        ensures
            final(self).wf(),
            final(self).names() == old(self).names(),
            final(self).routed() == old(self).routed(),
            final(self).channels() == old(self).channels(),
            final(flags).len() == old(flags).len(),
            same_abilities(old(self).states(), final(self).states()),
            match result {
                Ok(()) => forall|m: int|
                    0 <= m < old(self).names().len() ==> {
                        &&& (#[trigger] final(self).states()[m]) == (ModuleState {
                            inbox: inbox_after(
                                names_of(receivers@),
                                old(self).names()[m],
                                *receiver,
                                old(self).states()[m].inbox,
                            ),
                            ..old(self).states()[m]
                        })
                        &&& final(flags)[m] == (old(flags)[m] || names_of(receivers@).contains(
                            old(self).names()[m],
                        ))
                        &&& names_of(receivers@).contains(old(self).names()[m]) ==> old(
                            self,
                        ).states()[m].accepts_inbox
                    },
                Err(error) => exists|k: int|
                    0 <= k < receivers.len() && error@ == ManagerErrorView::UnsupportedOperation(
                        route@,
                        #[trigger] receivers[k]@,
                    ),
            },
    {
        let ghost names = self.names();
        let ghost start = self.states();
        let ghost marks = flags@;
        let ghost listed = names_of(receivers@);
        let mut k: usize = 0;
        while k < receivers.len()
            invariant
                k <= receivers.len(),
                self.wf(),
                self.names() == names,
                names == old(self).names(),
                self.routed() == old(self).routed(),
                self.channels() == old(self).channels(),
                flags.len() == marks.len() == names.len(),
                marks == old(flags)@,
                start.len() == names.len(),
                start == old(self).states(),
                listed == names_of(receivers@),
                forall|j: int| 0 <= j < receivers.len() ==> names.contains(#[trigger] receivers[j]@),
                forall|m: int|
                    0 <= m < names.len() ==> {
                        &&& (#[trigger] self.states()[m]) == (ModuleState {
                            inbox: inbox_after(
                                listed.take(k as int),
                                names[m],
                                *receiver,
                                start[m].inbox,
                            ),
                            ..start[m]
                        })
                        &&& flags[m] == (marks[m] || listed.take(k as int).contains(names[m]))
                        &&& listed.take(k as int).contains(names[m]) ==> start[m].accepts_inbox
                    },
            decreases receivers.len() - k,
        {
            let found = self.index_of(&receivers[k]);
            assert(names.contains(receivers[k as int]@));
            let at = found.unwrap();
            let ghost here = self.states();
            let ghost seen = listed.take(k as int);
            let ghost more = listed.take(k as int + 1);
            let answer = self.entries[at].module.set_inbox(Some(clone_receiver(receiver)));
            assert(self.names() =~= names);
            assert(self.modules().len() == names.len());
            match assignment_outcome(route, &receivers[k], answer) {
                Ok(()) => {},
                Err(error) => {
                    assert(same_abilities(old(self).states(), self.states())) by {
                        assert forall|m: int| 0 <= m < names.len() implies (
                        #[trigger] self.states()[m]).accepts_inbox == start[m].accepts_inbox
                            && self.states()[m].accepts_outbox == start[m].accepts_outbox by {
                            if m != at {
                                assert(self.states()[m] == here[m]);
                            }
                        }
                    }
                    return Err(error);
                },
            }
            flags[at] = true;
            proof {
                assert(more =~= seen.push(receivers[k as int]@));
                assert(more[k as int] == names[at as int]);
                assert forall|m: int| 0 <= m < names.len() implies {
                    &&& (#[trigger] self.states()[m]) == (ModuleState {
                        inbox: inbox_after(more, names[m], *receiver, start[m].inbox),
                        ..start[m]
                    })
                    &&& flags[m] == (marks[m] || more.contains(names[m]))
                    &&& more.contains(names[m]) ==> start[m].accepts_inbox
                } by {
                    if m == at {
                        assert(here[m].accepts_inbox == start[m].accepts_inbox);
                    } else {
                        assert(names[m] != names[at as int]);
                        assert(self.states()[m] == here[m]);
                        if more.contains(names[m]) {
                            let j = choose|j: int| 0 <= j < more.len() && more[j] == names[m];
                            assert(seen[j] == names[m]);
                        }
                        if seen.contains(names[m]) {
                            let j = choose|j: int| 0 <= j < seen.len() && seen[j] == names[m];
                            assert(more[j] == names[m]);
                        }
                    }
                }
            }
            k += 1;
        }
        assert(listed.take(k as int) =~= listed);
        Ok(())
    }

    /// The names of the modules, in the order of declaration.
    pub fn declared_names(&self) -> (names: Vec<String>)
        ensures
            names_of(names@) == self.names(),
    {
        let mut names: Vec<String> = Vec::new();
        let mut m: usize = 0;
        while m < self.entries.len()
            invariant
                m <= self.entries.len(),
                names.len() == m,
                forall|k: int| 0 <= k < m ==> names[k]@ == self.names()[k],
            decreases self.entries.len() - m,
        {
            names.push(self.entries[m].name.clone());
            m += 1;
        }
        assert(names_of(names@) =~= self.names());
        names
    }

    /// Connects the modules as the routes say.
    ///
    /// The routes are checked first: a name that no module goes by is refused
    /// with `DanglingRouteReference`, and a route without a module on one side
    /// with `EmptyRouteEndpoint`, before any module is touched. Then each route
    /// gets one new channel; every module among its senders is handed a clone
    /// of the sending half as outbox, and every module among its receivers a
    /// clone of the receiving half as inbox. A module that refuses what it is
    /// handed ends the wiring with `UnsupportedOperation`.
    ///
    /// On success the graph keeps the channels, one per route, and marks the
    /// modules that some route names.
    pub fn wire(&mut self, routes: &Vec<(String, RouteConfiguration)>) -> (result: Result<
        (),
        ManagerError,
    >)
        requires
            old(self).wf(),
        ensures
            final(self).wf(),
            final(self).names() == old(self).names(),
            same_abilities(old(self).states(), final(self).states()),
            has_dangling(old(self).names(), route_views_of(routes@)) <==> (result matches Err(
                error,
            ) && error is DanglingRouteReference),
            match result {
                Ok(()) => {
                    &&& routes_valid(old(self).names(), route_views_of(routes@))
                    &&& accepted(old(self).names(), route_views_of(routes@), old(self).states())
                    &&& wired(
                        old(self).names(),
                        route_views_of(routes@),
                        final(self).channels(),
                        old(self).states(),
                        final(self).states(),
                    )
                    &&& forall|m: int|
                        0 <= m < old(self).names().len() ==> #[trigger] final(self).routed()[m]
                            == routable(route_views_of(routes@), old(self).names()[m])
                },
                Err(error) => {
                    &&& wiring_refused(old(self).names(), route_views_of(routes@), error@)
                    &&& final(self).routed() == old(self).routed()
                    &&& final(self).channels() == old(self).channels()
                    &&& !(error is UnsupportedOperation) ==> final(self).modules() == old(
                        self,
                    ).modules()
                },
            },
    {
        let ghost names = self.names();
        let ghost views = route_views_of(routes@);
        let ghost before = self.states();
        let declared = self.declared_names();
        match check_references(&declared, routes) {
            Err(error) => {
                return Err(error);
            },
            Ok(()) => {},
        }
        match check_endpoints(routes) {
            Err(error) => {
                return Err(error);
            },
            Ok(()) => {},
        }
        let mut flags: Vec<bool> = Vec::new();
        while flags.len() < self.entries.len()
            invariant
                flags.len() <= self.entries.len(),
                forall|m: int| 0 <= m < flags.len() ==> !flags[m],
            decreases self.entries.len() - flags.len(),
        {
            flags.push(false);
        }
        let mut channels: Vec<Channel> = Vec::new();
        let mut r: usize = 0;
        proof {
            lemma_wired_none(names, before);
            assert(views.take(0) =~= Seq::<RouteView>::empty());
        }
        while r < routes.len()
            invariant
                r <= routes.len(),
                self.wf(),
                self.names() == names,
                names == old(self).names(),
                before == old(self).states(),
                self.routed() == old(self).routed(),
                self.channels() == old(self).channels(),
                views == route_views_of(routes@),
                routes_valid(names, views),
                flags.len() == names.len(),
                wired(names, views.take(r as int), channels@, before, self.states()),
                accepted(names, views.take(r as int), before),
                forall|m: int|
                    0 <= m < names.len() ==> #[trigger] flags[m] == routable(
                        views.take(r as int),
                        names[m],
                    ),
            decreases routes.len() - r,
        {
            let channel = open_channel();
            let senders = routes[r].1.from.get_modules();
            let receivers = routes[r].1.to.get_modules();
            let ghost middle = self.states();
            let ghost marks = flags@;
            proof {
                assert(views[r as int].from == names_of(senders@));
                assert(views[r as int].to == names_of(receivers@));
                assert forall|j: int| 0 <= j < senders.len() implies names.contains(
                    #[trigger] senders[j]@,
                ) by {
                    assert(!dangling_at(names, views, r as int, j));
                    assert(endpoints(views[r as int])[j] == senders[j]@);
                }
                assert forall|j: int| 0 <= j < receivers.len() implies names.contains(
                    #[trigger] receivers[j]@,
                ) by {
                    assert(!dangling_at(names, views, r as int, senders.len() + j));
                    assert(endpoints(views[r as int])[senders.len() + j] == receivers[j]@);
                }
            }
            match self.assign_outboxes(&routes[r].0, &senders, &channel.sender, &mut flags) {
                Err(error) => {
                    proof {
                        let k = choose|k: int|
                            0 <= k < senders.len() && error@
                                == ManagerErrorView::UnsupportedOperation(
                                routes[r as int].0@,
                                #[trigger] senders[k]@,
                            );
                        assert(endpoints(views[r as int])[k] == senders[k]@);
                    }
                    return Err(error);
                },
                Ok(()) => {},
            }
            match self.assign_inboxes(&routes[r].0, &receivers, &channel.receiver, &mut flags) {
                Err(error) => {
                    proof {
                        let k = choose|k: int|
                            0 <= k < receivers.len() && error@
                                == ManagerErrorView::UnsupportedOperation(
                                routes[r as int].0@,
                                #[trigger] receivers[k]@,
                            );
                        assert(endpoints(views[r as int])[senders.len() + k] == receivers[k]@);
                    }
                    return Err(error);
                },
                Ok(()) => {},
            }
            proof {
                let after = self.states();
                assert forall|m: int| 0 <= m < names.len() implies #[trigger] after[m]
                    == state_after(views[r as int], names[m], channel, middle[m]) by {}
                lemma_wired_step(names, views, r as int, channels@, channel, before, middle, after);
                assert forall|m: int|
                    0 <= m < names.len() && views[r as int].from.contains(
                        #[trigger] names[m],
                    ) implies before[m].accepts_outbox by {
                    assert(middle[m].accepts_outbox == before[m].accepts_outbox);
                }
                assert forall|m: int|
                    0 <= m < names.len() && views[r as int].to.contains(
                        #[trigger] names[m],
                    ) implies before[m].accepts_inbox by {
                    assert(middle[m].accepts_inbox == before[m].accepts_inbox);
                    assert(after[m].accepts_inbox == middle[m].accepts_inbox);
                }
                lemma_accepted_step(names, views, r as int, before);
                assert forall|m: int| 0 <= m < names.len() implies #[trigger] flags[m] == routable(
                    views.take(r as int + 1),
                    names[m],
                ) by {
                    lemma_routable_step(views, r as int, names[m]);
                }
            }
            channels.push(channel);
            r += 1;
        }
        assert(views.take(r as int) =~= views);
        self.routed = flags;
        self.channels = channels;
        Ok(())
    }

    /// Starts every module that a route reaches, in the order of declaration,
    /// and sets the others aside without running them.
    pub fn launch(self) -> (launched: Launched)
        requires
            self.wf(),
        ensures
            launched.running_names() == selected(self.names(), self.routed(), true),
            names_of(launched.idle@) == selected(self.names(), self.routed(), false),
            launched.channels@ == self.channels(),
    {
        let ghost names = self.names();
        let ghost marks = self.routed();
        let ModuleGraph { entries, routed, channels } = self;
        let ghost all = entries@;
        let mut running: Vec<(String, JoinHandle<()>)> = Vec::new();
        let mut idle: Vec<String> = Vec::new();
        let mut at: usize = 0;
        for entry in it: entries
            invariant
                at == it.index(),
                it.seq() == all,
                marks == routed@,
                marks.len() == all.len(),
                names == all.map_values(|entry: ModuleEntry<M>| entry.name@),
                running_names_of(running@) == selected(
                    names.take(it.index() as int),
                    marks.take(it.index() as int),
                    true,
                ),
                names_of(idle@) == selected(
                    names.take(it.index() as int),
                    marks.take(it.index() as int),
                    false,
                ),
        {
            let ghost i = it.index() as int;
            let ghost was_running = running_names_of(running@);
            let ghost was_idle = names_of(idle@);
            proof {
                assert(names.take(i + 1).drop_last() =~= names.take(i));
                assert(marks.take(i + 1).drop_last() =~= marks.take(i));
            }
            let ModuleEntry { name, module } = entry;
            assert(at < routed.len());
            let reached = routed[at];
            at += 1;
            if reached {
                let handle = module.run();
                running.push((name, handle));
                assert(running_names_of(running@) =~= was_running.push(name@));
            } else {
                idle.push(name);
                assert(names_of(idle@) =~= was_idle.push(name@));
            }
        }
        assert(names.take(all.len() as int) =~= names);
        assert(marks.take(all.len() as int) =~= marks);
        Launched { running, idle, channels }
    }
}

} // verus!
