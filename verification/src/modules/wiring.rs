use crate::configuration::global_configuration::RouteView;
use crate::modules::channel::Channel;
use crate::modules::module::ModuleState;
use crate::modules::topology::{
    last_receiving, last_sending, never_receives, never_sends, receives_on, sends_on,
};
use async_channel::{Receiver, Sender};
use crate::messaging::message::Message;
use vstd::prelude::*;

verus! {

/// The outbox of the module `name` once a route with the senders `from` has
/// been wired: the route's sending half if the route names it, else what it
/// held before.
pub open spec fn outbox_after(
    from: Seq<Seq<char>>,
    name: Seq<char>,
    sender: Sender<Message>,
    before: Option<Sender<Message>>,
) -> Option<Sender<Message>> {
    if from.contains(name) {
        Some(sender)
    } else {
        before
    }
}

/// The inbox of the module `name` once a route with the receivers `to` has
/// been wired: the route's receiving half if the route names it, else what it
/// held before.
pub open spec fn inbox_after(
    to: Seq<Seq<char>>,
    name: Seq<char>,
    receiver: Receiver<Message>,
    before: Option<Receiver<Message>>,
) -> Option<Receiver<Message>> {
    if to.contains(name) {
        Some(receiver)
    } else {
        before
    }
}

/// The state of the module `name` once `route` has been wired over `channel`.
pub open spec fn state_after(
    route: RouteView,
    name: Seq<char>,
    channel: Channel,
    before: ModuleState,
) -> ModuleState {
    ModuleState {
        accepts_inbox: before.accepts_inbox,
        accepts_outbox: before.accepts_outbox,
        inbox: inbox_after(route.to, name, channel.receiver, before.inbox),
        outbox: outbox_after(route.from, name, channel.sender, before.outbox),
    }
}

/// What each module is able to take is the same in `after` as in `before`.
pub open spec fn same_abilities(before: Seq<ModuleState>, after: Seq<ModuleState>) -> bool {
    &&& after.len() == before.len()
    &&& forall|m: int|
        0 <= m < before.len() ==> (#[trigger] after[m]).accepts_inbox == before[m].accepts_inbox
            && after[m].accepts_outbox == before[m].accepts_outbox
}

/// What wiring the `routes` over the `channels` makes of the modules `names`,
/// whose states were `before` and are `after`.
///
/// There is one channel per route. A module holds as outbox the sending half
/// of the last route that names it as a sender, and as inbox the receiving
/// half of the last route that names it as a receiver; on a side on which no
/// route names it, it holds what it held before. What a module is able to take
/// does not change.
pub open spec fn wired(
    names: Seq<Seq<char>>,
    routes: Seq<RouteView>,
    channels: Seq<Channel>,
    before: Seq<ModuleState>,
    after: Seq<ModuleState>,
) -> bool {
    &&& channels.len() == routes.len()
    &&& before.len() == names.len()
    &&& same_abilities(before, after)
    &&& forall|m: int, r: int|
        0 <= m < names.len() && #[trigger] last_sending(routes, r, names[m]) ==> after[m].outbox
            == Some(channels[r].sender)
    &&& forall|m: int|
        0 <= m < names.len() && never_sends(routes, #[trigger] names[m]) ==> after[m].outbox
            == before[m].outbox
    &&& forall|m: int, r: int|
        0 <= m < names.len() && #[trigger] last_receiving(routes, r, names[m]) ==> after[m].inbox
            == Some(channels[r].receiver)
    &&& forall|m: int|
        0 <= m < names.len() && never_receives(routes, #[trigger] names[m]) ==> after[m].inbox
            == before[m].inbox
}

/// Every module that a route names as a sender is able to take an outbox, and
/// every module that a route names as a receiver is able to take an inbox.
pub open spec fn accepted(
    names: Seq<Seq<char>>,
    routes: Seq<RouteView>,
    states: Seq<ModuleState>,
) -> bool {
    &&& states.len() == names.len()
    &&& forall|m: int, r: int|
        0 <= m < names.len() && #[trigger] sends_on(routes, r, names[m])
            ==> states[m].accepts_outbox
    &&& forall|m: int, r: int|
        0 <= m < names.len() && #[trigger] receives_on(routes, r, names[m])
            ==> states[m].accepts_inbox
}

/// Wiring no route changes nothing.
pub(crate) proof fn lemma_wired_none(names: Seq<Seq<char>>, states: Seq<ModuleState>)
    requires
        states.len() == names.len(),
    ensures
        wired(names, Seq::<RouteView>::empty(), Seq::<Channel>::empty(), states, states),
        accepted(names, Seq::<RouteView>::empty(), states),
{
}

/// Wiring one more route over one more channel extends what `wired` says of
/// the routes before it.
pub(crate) proof fn lemma_wired_step(
    names: Seq<Seq<char>>,
    routes: Seq<RouteView>,
    r: int,
    channels: Seq<Channel>,
    channel: Channel,
    before: Seq<ModuleState>,
    middle: Seq<ModuleState>,
    after: Seq<ModuleState>,
)
    requires
        0 <= r < routes.len(),
        wired(names, routes.take(r), channels, before, middle),
        after.len() == names.len(),
        forall|m: int|
            0 <= m < names.len() ==> #[trigger] after[m] == state_after(
                routes[r],
                names[m],
                channel,
                middle[m],
            ),
    ensures
        wired(names, routes.take(r + 1), channels.push(channel), before, after),
{
    let shorter = routes.take(r);
    let longer = routes.take(r + 1);
    let more = channels.push(channel);
    assert forall|q: int, name: Seq<char>| sends_on(shorter, q, name) implies sends_on(
        longer,
        q,
        name,
    ) by {
        assert(shorter[q] == longer[q]);
    }
    assert forall|q: int, name: Seq<char>| receives_on(shorter, q, name) implies receives_on(
        longer,
        q,
        name,
    ) by {
        assert(shorter[q] == longer[q]);
    }
    assert forall|m: int, q: int|
        0 <= m < names.len() && #[trigger] last_sending(longer, q, names[m]) implies after[m].outbox
        == Some(more[q].sender) by {
        if q < r {
            assert(shorter[q] == longer[q]);
            assert(!sends_on(longer, r, names[m]));
            assert(longer[r] == routes[r]);
            assert(last_sending(shorter, q, names[m]));
        } else {
            assert(longer[r] == routes[r]);
        }
    }
    assert forall|m: int|
        0 <= m < names.len() && never_sends(longer, #[trigger] names[m]) implies after[m].outbox
        == before[m].outbox by {
        assert(!sends_on(longer, r, names[m]));
        assert(longer[r] == routes[r]);
        assert(never_sends(shorter, names[m]));
    }
    assert forall|m: int, q: int|
        0 <= m < names.len() && #[trigger] last_receiving(longer, q, names[m]) implies after[m].inbox
        == Some(more[q].receiver) by {
        if q < r {
            assert(shorter[q] == longer[q]);
            assert(!receives_on(longer, r, names[m]));
            assert(longer[r] == routes[r]);
            assert(last_receiving(shorter, q, names[m]));
        } else {
            assert(longer[r] == routes[r]);
        }
    }
    assert forall|m: int|
        0 <= m < names.len() && never_receives(longer, #[trigger] names[m]) implies after[m].inbox
        == before[m].inbox by {
        assert(!receives_on(longer, r, names[m]));
        assert(longer[r] == routes[r]);
        assert(never_receives(shorter, names[m]));
    }
}

/// If the modules were able to take what the routes before `r` hand them, and
/// are able to take what route `r` hands them, they are able to take what the
/// routes up to and with `r` hand them.
pub(crate) proof fn lemma_accepted_step(
    names: Seq<Seq<char>>,
    routes: Seq<RouteView>,
    r: int,
    states: Seq<ModuleState>,
)
    requires
        0 <= r < routes.len(),
        accepted(names, routes.take(r), states),
        forall|m: int|
            0 <= m < names.len() && routes[r].from.contains(#[trigger] names[m])
                ==> states[m].accepts_outbox,
        forall|m: int|
            0 <= m < names.len() && routes[r].to.contains(#[trigger] names[m])
                ==> states[m].accepts_inbox,
    ensures
        accepted(names, routes.take(r + 1), states),
{
    let shorter = routes.take(r);
    let longer = routes.take(r + 1);
    assert forall|m: int, q: int|
        0 <= m < names.len() && #[trigger] sends_on(longer, q, names[m])
        implies states[m].accepts_outbox by {
        if q < r {
            assert(shorter[q] == longer[q]);
            assert(sends_on(shorter, q, names[m]));
        } else {
            assert(longer[r] == routes[r]);
        }
    }
    assert forall|m: int, q: int|
        0 <= m < names.len() && #[trigger] receives_on(longer, q, names[m])
        implies states[m].accepts_inbox by {
        if q < r {
            assert(shorter[q] == longer[q]);
            assert(receives_on(shorter, q, names[m]));
        } else {
            assert(longer[r] == routes[r]);
        }
    }
}

/// After wiring, a module that route `r` names as a sender holds the sending
/// half of the channel of route `r`, unless a later route names it as a sender
/// too.
pub proof fn lemma_sender_holds_route_channel(
    names: Seq<Seq<char>>,
    routes: Seq<RouteView>,
    channels: Seq<Channel>,
    before: Seq<ModuleState>,
    after: Seq<ModuleState>,
    r: int,
    m: int,
)
    requires
        wired(names, routes, channels, before, after),
        0 <= m < names.len(),
        sends_on(routes, r, names[m]),
        forall|q: int| r < q ==> !sends_on(routes, q, names[m]),
    ensures
        after[m].outbox == Some(channels[r].sender),
{
    assert(last_sending(routes, r, names[m]));
}

/// After wiring, a module that route `r` names as a receiver holds the
/// receiving half of the channel of route `r`, unless a later route names it as
/// a receiver too.
pub proof fn lemma_receiver_holds_route_channel(
    names: Seq<Seq<char>>,
    routes: Seq<RouteView>,
    channels: Seq<Channel>,
    before: Seq<ModuleState>,
    after: Seq<ModuleState>,
    r: int,
    m: int,
)
    requires
        wired(names, routes, channels, before, after),
        0 <= m < names.len(),
        receives_on(routes, r, names[m]),
        forall|q: int| r < q ==> !receives_on(routes, q, names[m]),
    ensures
        after[m].inbox == Some(channels[r].receiver),
{
    assert(last_receiving(routes, r, names[m]));
}

/// One to one: after wiring a route from the single module `a` to the single
/// module `b`, the outbox of `a` and the inbox of `b` are the two halves of the
/// route's one channel, so that what `a` sends is what `b` receives. This holds
/// where no later route gives `a` another outbox or `b` another inbox.
pub proof fn lemma_single_to_single(
    names: Seq<Seq<char>>,
    routes: Seq<RouteView>,
    channels: Seq<Channel>,
    before: Seq<ModuleState>,
    after: Seq<ModuleState>,
    r: int,
    a: int,
    b: int,
)
    requires
        wired(names, routes, channels, before, after),
        0 <= r < routes.len(),
        0 <= a < names.len(),
        0 <= b < names.len(),
        routes[r].from == seq![names[a]],
        routes[r].to == seq![names[b]],
        forall|q: int| r < q ==> !sends_on(routes, q, names[a]),
        forall|q: int| r < q ==> !receives_on(routes, q, names[b]),
    ensures
        after[a].outbox == Some(channels[r].sender),
        after[b].inbox == Some(channels[r].receiver),
{
    assert(routes[r].from[0] == names[a]);
    assert(routes[r].to[0] == names[b]);
    lemma_sender_holds_route_channel(names, routes, channels, before, after, r, a);
    lemma_receiver_holds_route_channel(names, routes, channels, before, after, r, b);
}

/// Fan-in: after wiring a route from the modules `a` and `c` to the single
/// module `b`, both senders hold the sending half of the route's one channel
/// and `b` holds its receiving half, so that `b` receives what either of them
/// sends. This holds where no later route gives `a` or `c` another outbox or
/// `b` another inbox.
pub proof fn lemma_fan_in(
    names: Seq<Seq<char>>,
    routes: Seq<RouteView>,
    channels: Seq<Channel>,
    before: Seq<ModuleState>,
    after: Seq<ModuleState>,
    r: int,
    a: int,
    c: int,
    b: int,
)
    requires
        wired(names, routes, channels, before, after),
        0 <= r < routes.len(),
        0 <= a < names.len(),
        0 <= c < names.len(),
        0 <= b < names.len(),
        routes[r].from == seq![names[a], names[c]],
        routes[r].to == seq![names[b]],
        forall|q: int| r < q ==> !sends_on(routes, q, names[a]),
        forall|q: int| r < q ==> !sends_on(routes, q, names[c]),
        forall|q: int| r < q ==> !receives_on(routes, q, names[b]),
    ensures
        after[a].outbox == Some(channels[r].sender),
        after[c].outbox == Some(channels[r].sender),
        after[b].inbox == Some(channels[r].receiver),
{
    assert(routes[r].from[0] == names[a]);
    assert(routes[r].from[1] == names[c]);
    assert(routes[r].to[0] == names[b]);
    lemma_sender_holds_route_channel(names, routes, channels, before, after, r, a);
    lemma_sender_holds_route_channel(names, routes, channels, before, after, r, c);
    lemma_receiver_holds_route_channel(names, routes, channels, before, after, r, b);
}

/// Fan-out: after wiring a route from the single module `a` to the modules `b`
/// and `c`, `a` holds the sending half of the route's one channel and both
/// receivers hold its receiving half. This holds where no later route gives
/// `a` another outbox or `b` or `c` another inbox.
///
/// The two receivers share one channel: each message that `a` sends is taken
/// by one of them, none is lost and none is delivered twice.
pub proof fn lemma_fan_out(
    names: Seq<Seq<char>>,
    routes: Seq<RouteView>,
    channels: Seq<Channel>,
    before: Seq<ModuleState>,
    after: Seq<ModuleState>,
    r: int,
    a: int,
    b: int,
    c: int,
)
    requires
        wired(names, routes, channels, before, after),
        0 <= r < routes.len(),
        0 <= a < names.len(),
        0 <= b < names.len(),
        0 <= c < names.len(),
        routes[r].from == seq![names[a]],
        routes[r].to == seq![names[b], names[c]],
        forall|q: int| r < q ==> !sends_on(routes, q, names[a]),
        forall|q: int| r < q ==> !receives_on(routes, q, names[b]),
        forall|q: int| r < q ==> !receives_on(routes, q, names[c]),
    ensures
        after[a].outbox == Some(channels[r].sender),
        after[b].inbox == Some(channels[r].receiver),
        after[c].inbox == Some(channels[r].receiver),
{
    assert(routes[r].from[0] == names[a]);
    assert(routes[r].to[0] == names[b]);
    assert(routes[r].to[1] == names[c]);
    lemma_sender_holds_route_channel(names, routes, channels, before, after, r, a);
    lemma_receiver_holds_route_channel(names, routes, channels, before, after, r, b);
    lemma_receiver_holds_route_channel(names, routes, channels, before, after, r, c);
}

/// A module that is named on both sides of a route holds both halves of the
/// route's channel. This holds where no later route gives it another outbox or
/// another inbox.
pub proof fn lemma_both_sides(
    names: Seq<Seq<char>>,
    routes: Seq<RouteView>,
    channels: Seq<Channel>,
    before: Seq<ModuleState>,
    after: Seq<ModuleState>,
    r: int,
    m: int,
)
    requires
        wired(names, routes, channels, before, after),
        0 <= m < names.len(),
        sends_on(routes, r, names[m]),
        receives_on(routes, r, names[m]),
        forall|q: int| r < q ==> !sends_on(routes, q, names[m]),
        forall|q: int| r < q ==> !receives_on(routes, q, names[m]),
    ensures
        after[m].outbox == Some(channels[r].sender),
        after[m].inbox == Some(channels[r].receiver),
{
    lemma_sender_holds_route_channel(names, routes, channels, before, after, r, m);
    lemma_receiver_holds_route_channel(names, routes, channels, before, after, r, m);
}

} // verus!
