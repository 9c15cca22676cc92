//! The WebSocket side of the API: what each connection is subscribed to,
//! and how an incoming message is answered.

use vstd::prelude::*;
use crate::text::str_equal;

verus! {

/// The texts of a list of strings.
pub open spec fn event_texts(v: Seq<String>) -> Seq<Seq<char>> {
    v.map_values(|s: String| s@)
}

/// A connection of the WebSocket API. Times are milliseconds since the Unix
/// epoch.
pub struct ConnectionState {
    id: u128,
    subscriptions: Vec<String>,
    open: bool,
    connected_at: u64,
    last_activity: u64,
}

/// A message a client sends.
#[derive(Debug, Clone)]
pub enum ClientMessage {
    Subscribe { events: Vec<String> },
    Unsubscribe { events: Vec<String> },
    Ping,
    /// Any other message, which is ignored.
    Other,
}

/// What the server sends back to a message.
#[derive(Debug, Clone, Copy, PartialEq, Eq)]
pub enum Reply {
    Pong,
}

/// The event kind that carries mining events to subscribers.
pub open spec fn mining_events_text() -> Seq<char> {
    "mining_events"@
}

impl ConnectionState {
    /// The events subscribed to.
    pub closed spec fn subscribed(&self) -> Set<Seq<char>> {
        event_texts(self.subscriptions@).to_set()
    }

    /// Whether the connection can still be written to.
    pub closed spec fn is_open(&self) -> bool {
        self.open
    }

    /// The time of the last activity.
    pub closed spec fn last_active(&self) -> u64 {
        self.last_activity
    }

    /// The connection's identifier.
    pub closed spec fn ident(&self) -> u128 {
        self.id
    }

    /// Each event is listed once.
    pub closed spec fn well_formed(&self) -> bool {
        event_texts(self.subscriptions@).no_duplicates()
    }

    /// A connection opened at time `now`, subscribed to nothing.
    pub fn new(id: u128, now: u64) -> (r: Self)
        ensures
            r.well_formed(),
            r.ident() == id,
            r.subscribed() == Set::<Seq<char>>::empty(),
            r.is_open(),
            r.last_active() == now,
    {
        let r = ConnectionState { id, subscriptions: Vec::new(), open: true, connected_at: now, last_activity: now };
        assert(r.subscribed() =~= Set::<Seq<char>>::empty());
        r
    }

    /// The position of `event` in the list, if subscribed.
    fn position(&self, event: &str) -> (r: Option<usize>)
        ensures
            match r {
                Some(i) => i < self.subscriptions@.len() && self.subscriptions@[i as int]@ == event@,
                None => !self.subscribed().contains(event@),
            },
    {
        let mut i: usize = 0;
        while i < self.subscriptions.len()
            invariant
                i <= self.subscriptions@.len(),
                forall|j: int| 0 <= j < i ==> (#[trigger] self.subscriptions@[j])@ != event@,
            decreases self.subscriptions@.len() - i,
        {
            if str_equal(self.subscriptions[i].as_str(), event) {
                return Some(i);
            }
            i = i + 1;
        }
        assert(!self.subscribed().contains(event@)) by {
            if self.subscribed().contains(event@) {
                let k = choose|k: int| 0 <= k < event_texts(self.subscriptions@).len() && event_texts(self.subscriptions@)[k] == event@;
                assert(self.subscriptions@[k]@ == event@);
            }
        }
        None
    }

    /// Whether the connection is subscribed to `event`.
    pub fn is_subscribed(&self, event: &str) -> (r: bool)
        ensures
            r == self.subscribed().contains(event@),
    {
        match self.position(event) {
            Some(i) => {
                assert(event_texts(self.subscriptions@)[i as int] == event@);
                true
            },
            None => false,
        }
    }

    /// Adds one event to the subscriptions.
    fn add(&mut self, event: &String)
        requires
            old(self).well_formed(),
        ensures
            final(self).well_formed(),
            final(self).subscribed() == old(self).subscribed().insert(event@),
            final(self).ident() == old(self).ident(),
            final(self).is_open() == old(self).is_open(),
            final(self).last_active() == old(self).last_active(),
    {
        let found = self.position(event.as_str());
        if found.is_none() {
            let ghost before = event_texts(self.subscriptions@);
            self.subscriptions.push(event.clone());
            assert(event_texts(self.subscriptions@) =~= before.push(event@));
            assert(event_texts(self.subscriptions@).to_set() =~= before.to_set().insert(event@)) by {
                assert forall|x: Seq<char>| #[trigger] before.push(event@).contains(x) <==> before.contains(x) || x == event@ by {
                    if before.push(event@).contains(x) {
                        let k = choose|k: int| 0 <= k < before.push(event@).len() && before.push(event@)[k] == x;
                        if k < before.len() {
                            assert(before[k] == x);
                        }
                    }
                    if before.contains(x) {
                        let k = choose|k: int| 0 <= k < before.len() && before[k] == x;
                        assert(before.push(event@)[k] == x);
                    }
                    if x == event@ {
                        assert(before.push(event@)[before.len() as int] == x);
                    }
                }
            }
        } else {
            let i = found.unwrap();
            assert(event_texts(self.subscriptions@)[i as int] == event@);
            assert(self.subscribed() =~= old(self).subscribed().insert(event@));
        }
    }

    /// Removes one event from the subscriptions.
    fn drop_event(&mut self, event: &String)
        requires
            old(self).well_formed(),
        ensures
            final(self).well_formed(),
            final(self).subscribed() == old(self).subscribed().remove(event@),
            final(self).ident() == old(self).ident(),
            final(self).is_open() == old(self).is_open(),
            final(self).last_active() == old(self).last_active(),
    {
        match self.position(event.as_str()) {
            Some(i) => {
                let ghost before = event_texts(self.subscriptions@);
                self.subscriptions.remove(i);
                assert(event_texts(self.subscriptions@) =~= before.remove(i as int));
                assert(event_texts(self.subscriptions@).to_set() =~= before.to_set().remove(event@)) by {
                    let after = before.remove(i as int);
                    assert forall|x: Seq<char>| #[trigger] after.contains(x) <==> before.contains(x) && x != event@ by {
                        if after.contains(x) {
                            let k = choose|k: int| 0 <= k < after.len() && after[k] == x;
                            let k0 = if k < i { k } else { k + 1 };
                            assert(before[k0] == x);
                            assert(k0 != i);
                            assert(before.no_duplicates());
                            assert(before[k0] != before[i as int]);
                        }
                        if before.contains(x) && x != event@ {
                            let k = choose|k: int| 0 <= k < before.len() && before[k] == x;
                            assert(k != i);
                            let k1 = if k < i { k } else { k - 1 };
                            assert(after[k1] == x);
                        }
                    }
                }
            },
            None => {
                assert(self.subscribed() =~= old(self).subscribed().remove(event@));
            },
        }
    }

    /// Subscribes to each of `events` and notes the activity at `now`.
    pub fn subscribe(&mut self, events: &Vec<String>, now: u64)
        requires
            old(self).well_formed(),
        ensures
            final(self).well_formed(),
            final(self).subscribed() == old(self).subscribed().union(event_texts(events@).to_set()),
            final(self).ident() == old(self).ident(),
            final(self).is_open() == old(self).is_open(),
            final(self).last_active() == now,
    {
        let mut i: usize = 0;
        while i < events.len()
            invariant
                self.well_formed(),
                i <= events@.len(),
                self.subscribed() == old(self).subscribed().union(event_texts(events@.subrange(0, i as int)).to_set()),
                self.ident() == old(self).ident(),
                self.is_open() == old(self).is_open(),
            decreases events@.len() - i,
        {
            self.add(&events[i]);
            proof {
                let pre = event_texts(events@.subrange(0, i as int));
                let post = event_texts(events@.subrange(0, i + 1));
                assert(post =~= pre.push(events@[i as int]@));
                assert(post.to_set() =~= pre.to_set().insert(events@[i as int]@)) by {
                    assert forall|x: Seq<char>| #[trigger] post.contains(x) <==> pre.contains(x) || x == events@[i as int]@ by {
                        if post.contains(x) {
                            let k = choose|k: int| 0 <= k < post.len() && post[k] == x;
                            if k < pre.len() {
                                assert(pre[k] == x);
                            }
                        }
                        if pre.contains(x) {
                            let k = choose|k: int| 0 <= k < pre.len() && pre[k] == x;
                            assert(post[k] == x);
                        }
                        if x == events@[i as int]@ {
                            assert(post[pre.len() as int] == x);
                        }
                    }
                }
            }
            i = i + 1;
        }
        assert(events@.subrange(0, events@.len() as int) =~= events@);
        self.last_activity = now;
    }

    /// Unsubscribes from each of `events` and notes the activity at `now`.
    pub fn unsubscribe(&mut self, events: &Vec<String>, now: u64)
        requires
            old(self).well_formed(),
        ensures
            final(self).well_formed(),
            final(self).subscribed() == old(self).subscribed().difference(event_texts(events@).to_set()),
            final(self).ident() == old(self).ident(),
            final(self).is_open() == old(self).is_open(),
            final(self).last_active() == now,
    {
        let mut i: usize = 0;
        while i < events.len()
            invariant
                self.well_formed(),
                i <= events@.len(),
                self.subscribed() == old(self).subscribed().difference(event_texts(events@.subrange(0, i as int)).to_set()),
                self.ident() == old(self).ident(),
                self.is_open() == old(self).is_open(),
            decreases events@.len() - i,
        {
            self.drop_event(&events[i]);
            proof {
                let pre = event_texts(events@.subrange(0, i as int));
                let post = event_texts(events@.subrange(0, i + 1));
                assert(post =~= pre.push(events@[i as int]@));
                assert(post.to_set() =~= pre.to_set().insert(events@[i as int]@)) by {
                    assert forall|x: Seq<char>| #[trigger] post.contains(x) <==> pre.contains(x) || x == events@[i as int]@ by {
                        if post.contains(x) {
                            let k = choose|k: int| 0 <= k < post.len() && post[k] == x;
                            if k < pre.len() {
                                assert(pre[k] == x);
                            }
                        }
                        if pre.contains(x) {
                            let k = choose|k: int| 0 <= k < pre.len() && pre[k] == x;
                            assert(post[k] == x);
                        }
                        if x == events@[i as int]@ {
                            assert(post[pre.len() as int] == x);
                        }
                    }
                }
                assert(self.subscribed() =~= old(self).subscribed().difference(post.to_set()));
            }
            i = i + 1;
        }
        assert(events@.subrange(0, events@.len() as int) =~= events@);
        self.last_activity = now;
    }

    /// Notes activity at `now`.
    pub fn update_activity(&mut self, now: u64)
        ensures
            final(self).last_active() == now,
            final(self).subscribed() == old(self).subscribed(),
            final(self).is_open() == old(self).is_open(),
            final(self).ident() == old(self).ident(),
            final(self).well_formed() == old(self).well_formed(),
    {
        self.last_activity = now;
    }

    /// Notes that a send failed: the connection is closed for writing.
    pub fn mark_disconnected(&mut self)
        ensures
            !final(self).is_open(),
            final(self).subscribed() == old(self).subscribed(),
            final(self).last_active() == old(self).last_active(),
            final(self).ident() == old(self).ident(),
            final(self).well_formed() == old(self).well_formed(),
    {
        self.open = false;
    }

    /// The time of the connection's last activity.
    pub fn last_activity(&self) -> (r: u64)
        ensures
            r == self.last_active(),
    {
        self.last_activity
    }

    /// Whether the connection can no longer be written to.
    pub fn is_disconnected(&self) -> (r: bool)
        ensures
            r == !self.is_open(),
    {
        !self.open
    }

    /// Whether mining events are forwarded to this connection.
    pub fn wants_mining_events(&self) -> (r: bool)
        ensures
            r == self.subscribed().contains(mining_events_text()),
    {
        self.is_subscribed("mining_events")
    }

    /// Takes in a client message at time `now`: subscriptions change as
    /// asked, a ping is answered with a pong, anything else is ignored.
    pub fn handle_message(&mut self, message: &ClientMessage, now: u64) -> (r: Option<Reply>)
        requires
            old(self).well_formed(),
        ensures
            final(self).well_formed(),
            final(self).ident() == old(self).ident(),
            final(self).is_open() == old(self).is_open(),
            match *message {
                ClientMessage::Subscribe { events } => r is None
                    && final(self).subscribed() == old(self).subscribed().union(event_texts(events@).to_set()),
                ClientMessage::Unsubscribe { events } => r is None
                    && final(self).subscribed() == old(self).subscribed().difference(event_texts(events@).to_set()),
                ClientMessage::Ping => r == Some(Reply::Pong) && final(self).subscribed() == old(self).subscribed(),
                ClientMessage::Other => r is None && final(self).subscribed() == old(self).subscribed(),
            },
            final(self).last_active() == activity_after(old(self).last_active(), *message, now),
    {
        match message {
            ClientMessage::Subscribe { events } => {
                self.subscribe(events, now);
                None
            },
            ClientMessage::Unsubscribe { events } => {
                self.unsubscribe(events, now);
                None
            },
            ClientMessage::Ping => Some(Reply::Pong),
            ClientMessage::Other => None,
        }
    }
}


/// Unsubscribing from events that were just subscribed to, none of which
/// was subscribed before, leaves the subscriptions as they were.
pub proof fn law_unsubscribe_undoes_subscribe(before: Set<Seq<char>>, events: Set<Seq<char>>)
    requires
        before.disjoint(events),
    ensures
        before.union(events).difference(events) == before,
{
    assert(before.union(events).difference(events) =~= before);
}

impl ConnectionState {
    /// The number of events subscribed to.
    pub fn subscription_count(&self) -> (r: usize)
        requires
            self.well_formed(),
        ensures
            r == self.subscribed().len(),
    {
        proof {
            event_texts(self.subscriptions@).unique_seq_to_set();
        }
        self.subscriptions.len()
    }
}

/// Counts of the open WebSocket connections.
#[derive(Debug, Clone, Copy, PartialEq, Eq)]
pub struct WebSocketStats {
    pub total_connections: usize,
    pub total_subscriptions: usize,
}

/// The events subscribed to over the first `n` of `conns`.
pub open spec fn subscription_total(conns: Seq<ConnectionState>, n: int) -> nat
    decreases n,
{
    if n <= 0 {
        0
    } else {
        subscription_total(conns, n - 1) + conns[n - 1].subscribed().len()
    }
}

/// Whether `conns` holds a connection with identifier `id`, at `i`.
pub open spec fn holds_at(conns: Seq<ConnectionState>, id: u128, i: int) -> bool {
    0 <= i < conns.len() && conns[i].ident() == id
}

/// The WebSocket connections of the API, one per identifier.
pub struct WebSocketManager {
    connections: Vec<ConnectionState>,
}

impl WebSocketManager {
    /// The connections, in the order they were added.
    pub closed spec fn connections(&self) -> Seq<ConnectionState> {
        self.connections@
    }

    /// No identifier occurs twice and every connection lists each event once.
    pub open spec fn well_formed(&self) -> bool {
        &&& forall|i: int, j: int| 0 <= i < j < self.connections().len()
            ==> self.connections()[i].ident() != self.connections()[j].ident()
        &&& forall|i: int| 0 <= i < self.connections().len() ==> (#[trigger] self.connections()[i]).well_formed()
    }

    /// No connections.
    pub fn new() -> (r: Self)
        ensures
            r.well_formed(),
            r.connections() == Seq::<ConnectionState>::empty(),
    {
        WebSocketManager { connections: Vec::new() }
    }

    /// The position of the connection `id`, if there is one.
    fn find(&self, id: u128) -> (r: Option<usize>)
        ensures
            r matches Some(i) ==> holds_at(self.connections(), id, i as int),
            r is None ==> forall|i: int| 0 <= i < self.connections().len() ==> !holds_at(self.connections(), id, i),
    {
        let mut i: usize = 0;
        while i < self.connections.len()
            invariant
                i <= self.connections@.len(),
                forall|j: int| 0 <= j < i ==> !holds_at(self.connections(), id, j),
            decreases self.connections@.len() - i,
        {
            if self.connections[i].id == id {
                return Some(i);
            }
            i = i + 1;
        }
        None
    }

    /// Adds `connection`; one with the same identifier is replaced in place.
    pub fn add_connection(&mut self, connection: ConnectionState)
        requires
            old(self).well_formed(),
            connection.well_formed(),
        ensures
            final(self).well_formed(),
            (exists|i: int| holds_at(old(self).connections(), connection.ident(), i)) ==> exists|i: int|
                holds_at(old(self).connections(), connection.ident(), i)
                && final(self).connections() == old(self).connections().update(i, connection),
            !(exists|i: int| holds_at(old(self).connections(), connection.ident(), i))
                ==> final(self).connections() == old(self).connections().push(connection),
    {
        let id = connection.id;
        let ghost c = connection;
        match self.find(id) {
            Some(i) => {
                self.connections.set(i, connection);
                assert(holds_at(old(self).connections(), c.ident(), i as int));
                assert(self.connections() =~= old(self).connections().update(i as int, connection));
                assert forall|a: int, b: int| 0 <= a < b < self.connections().len()
                    implies self.connections()[a].ident() != self.connections()[b].ident() by {
                    if a != i && b != i {
                        assert(self.connections()[a] == old(self).connections()[a]);
                        assert(self.connections()[b] == old(self).connections()[b]);
                    } else if a == i {
                        assert(self.connections()[b] == old(self).connections()[b]);
                    } else {
                        assert(self.connections()[a] == old(self).connections()[a]);
                    }
                }
            },
            None => {
                self.connections.push(connection);
                assert(self.connections() =~= old(self).connections().push(connection));
                assert forall|a: int, b: int| 0 <= a < b < self.connections().len()
                    implies self.connections()[a].ident() != self.connections()[b].ident() by {
                    if b == old(self).connections().len() {
                        assert(!holds_at(old(self).connections(), id, a));
                    }
                }
            },
        }
    }

    /// Removes the connection `id`, if there is one.
    pub fn remove_connection(&mut self, id: u128)
        requires
            old(self).well_formed(),
        ensures
            final(self).well_formed(),
            (exists|i: int| holds_at(old(self).connections(), id, i)) ==> exists|i: int|
                holds_at(old(self).connections(), id, i) && final(self).connections() == old(self).connections().remove(i),
            !(exists|i: int| holds_at(old(self).connections(), id, i)) ==> final(self).connections() == old(self).connections(),
    {
        match self.find(id) {
            Some(i) => {
                self.connections.remove(i);
                assert(holds_at(old(self).connections(), id, i as int));
                assert(self.connections() =~= old(self).connections().remove(i as int));
                assert forall|a: int, b: int| 0 <= a < b < self.connections().len()
                    implies self.connections()[a].ident() != self.connections()[b].ident() by {
                    let a0 = if a < i { a } else { a + 1 };
                    let b0 = if b < i { b } else { b + 1 };
                    assert(self.connections()[a] == old(self).connections()[a0]);
                    assert(self.connections()[b] == old(self).connections()[b0]);
                }
                assert forall|a: int| 0 <= a < self.connections().len()
                    implies (#[trigger] self.connections()[a]).well_formed() by {
                    let a0 = if a < i { a } else { a + 1 };
                    assert(self.connections()[a] == old(self).connections()[a0]);
                }
            },
            None => {},
        }
    }

    /// The number of connections.
    pub fn get_connection_count(&self) -> (r: usize)
        ensures
            r == self.connections().len(),
    {
        self.connections.len()
    }

    /// The number of connections and of their subscriptions, the latter
    /// capped at `usize::MAX`.
    pub fn get_connection_stats(&self) -> (r: WebSocketStats)
        requires
            self.well_formed(),
        ensures
            r.total_connections == self.connections().len(),
            r.total_subscriptions == (if subscription_total(self.connections(), self.connections().len() as int) <= usize::MAX {
                subscription_total(self.connections(), self.connections().len() as int)
            } else {
                usize::MAX as nat
            }),
    {
        let mut total: usize = 0;
        let mut i: usize = 0;
        while i < self.connections.len()
            invariant
                i <= self.connections@.len(),
                self.well_formed(),
                total == (if subscription_total(self.connections(), i as int) <= usize::MAX {
                    subscription_total(self.connections(), i as int)
                } else {
                    usize::MAX as nat
                }),
            decreases self.connections@.len() - i,
        {
            assert(self.connections()[i as int].well_formed());
            let n = self.connections[i].subscription_count();
            total = total.saturating_add(n);
            i = i + 1;
        }
        WebSocketStats { total_connections: self.connections.len(), total_subscriptions: total }
    }

    /// Drops the connections that can no longer be written to.
    pub fn cleanup_connections(&mut self)
        requires
            old(self).well_formed(),
        ensures
            final(self).well_formed(),
            final(self).connections() == open_only(old(self).connections()),
    {
        let ghost before = self.connections();
        let mut kept: Vec<ConnectionState> = Vec::new();
        let mut rest: Vec<ConnectionState> = Vec::new();
        std::mem::swap(&mut rest, &mut self.connections);
        let ghost all = rest@;
        let n = rest.len();
        let mut i: usize = 0;
        while rest.len() > 0
            invariant
                all == before,
                all.len() == n,
                rest@ == all.subrange(i as int, all.len() as int),
                i <= all.len(),
                kept@ == open_only(all.subrange(0, i as int)),
            decreases rest@.len(),
        {
            let c = rest.remove(0);
            proof {
                assert(all.subrange(0, i + 1).drop_last() =~= all.subrange(0, i as int));
                assert(all.subrange(0, i + 1).last() == c);
            }
            if c.open {
                kept.push(c);
            }
            i = i + 1;
            proof {
                assert(rest@ =~= all.subrange(i as int, all.len() as int));
            }
        }
        proof {
            assert(all.subrange(0, i as int) =~= all);
            lemma_open_only_keeps_distinct(all);
        }
        self.connections = kept;
    }

    /// Takes in `message` from the connection `id` at time `now`: its
    /// subscriptions change as asked and a ping is answered; a message from
    /// an unknown connection changes nothing and is not answered.
    pub fn handle_message(&mut self, id: u128, message: &ClientMessage, now: u64) -> (r: Option<Reply>)
        requires
            old(self).well_formed(),
        ensures
            final(self).well_formed(),
            final(self).connections().len() == old(self).connections().len(),
            !(exists|i: int| holds_at(old(self).connections(), id, i)) ==> r is None
                && final(self).connections() == old(self).connections(),
            forall|i: int| holds_at(old(self).connections(), id, i) ==> {
                &&& r == reply_to(*message)
                &&& final(self).connections()[i].ident() == id
                &&& final(self).connections()[i].is_open() == old(self).connections()[i].is_open()
                &&& final(self).connections()[i].subscribed()
                    == subscriptions_after(old(self).connections()[i].subscribed(), *message)
                &&& final(self).connections()[i].last_active()
                    == activity_after(old(self).connections()[i].last_active(), *message, now)
                &&& forall|j: int| 0 <= j < old(self).connections().len() && j != i
                    ==> final(self).connections()[j] == old(self).connections()[j]
            },
    {
        match self.find(id) {
            Some(i) => {
                let ghost before = self.connections();
                assert(before[i as int].well_formed());
                let mut c = self.connections.remove(i);
                let r = c.handle_message(message, now);
                self.connections.insert(i, c);
                proof {
                    assert(self.connections() =~= before.update(i as int, c));
                    assert forall|k: int| holds_at(before, id, k) implies k == i by {
                        if k != i {
                            if k < i {
                                assert(before[k].ident() != before[i as int].ident());
                            } else {
                                assert(before[i as int].ident() != before[k].ident());
                            }
                        }
                    }
                    assert forall|a: int, b: int| 0 <= a < b < self.connections().len()
                        implies self.connections()[a].ident() != self.connections()[b].ident() by {
                        assert(self.connections()[a].ident() == before[a].ident());
                        assert(self.connections()[b].ident() == before[b].ident());
                    }
                    assert forall|a: int| 0 <= a < self.connections().len()
                        implies (#[trigger] self.connections()[a]).well_formed() by {
                        if a != i {
                            assert(self.connections()[a] == before[a]);
                        }
                    }
                }
                r
            },
            None => None,
        }
    }

    /// Whether the connection `id` takes events of kind `event`; false when
    /// there is no such connection.
    pub fn is_subscribed(&self, id: u128, event: &str) -> (r: bool)
        requires
            self.well_formed(),
        ensures
            r == exists|i: int| holds_at(self.connections(), id, i) && self.connections()[i].subscribed().contains(event@),
    {
        match self.find(id) {
            Some(i) => {
                let b = self.connections[i].is_subscribed(event);
                proof {
                    assert(holds_at(self.connections(), id, i as int));
                    if b {
                        assert(holds_at(self.connections(), id, i as int) && self.connections()[i as int].subscribed().contains(event@));
                    }
                    if !b && exists|k: int| holds_at(self.connections(), id, k) && self.connections()[k].subscribed().contains(event@) {
                        let k = choose|k: int| holds_at(self.connections(), id, k) && self.connections()[k].subscribed().contains(event@);
                        assert(self.connections@[k].ident() == self.connections@[i as int].ident());
                    }
                }
                b
            },
            None => false,
        }
    }
}

/// The subscriptions after a connection subscribed to `before` takes in
/// `message`.
pub open spec fn subscriptions_after(before: Set<Seq<char>>, message: ClientMessage) -> Set<Seq<char>> {
    match message {
        ClientMessage::Subscribe { events } => before.union(event_texts(events@).to_set()),
        ClientMessage::Unsubscribe { events } => before.difference(event_texts(events@).to_set()),
        ClientMessage::Ping => before,
        ClientMessage::Other => before,
    }
}

/// The last activity time of a connection last active at `before` after it
/// takes in `message` at `now`: a subscription change marks it active at
/// `now`; a ping or any other message leaves it as it was.
pub open spec fn activity_after(before: u64, message: ClientMessage, now: u64) -> u64 {
    match message {
        ClientMessage::Subscribe { .. } => now,
        ClientMessage::Unsubscribe { .. } => now,
        _ => before,
    }
}

/// The answer to `message`: a pong to a ping, nothing otherwise.
pub open spec fn reply_to(message: ClientMessage) -> Option<Reply> {
    match message {
        ClientMessage::Ping => Some(Reply::Pong),
        _ => None,
    }
}

/// The connections of `conns` that are still open, in order.
pub open spec fn open_only(conns: Seq<ConnectionState>) -> Seq<ConnectionState>
    decreases conns.len(),
{
    if conns.len() == 0 {
        conns
    } else if conns.last().is_open() {
        open_only(conns.drop_last()).push(conns.last())
    } else {
        open_only(conns.drop_last())
    }
}

/// The open connections are among the connections, each kept once.
proof fn lemma_open_only_sub(all: Seq<ConnectionState>)
    ensures
        open_only(all).len() <= all.len(),
        forall|i: int| 0 <= i < open_only(all).len() ==> exists|k: int| 0 <= k < all.len() && all[k] == #[trigger] open_only(all)[i],
    decreases all.len(),
{
    if all.len() > 0 {
        lemma_open_only_sub(all.drop_last());
        let init = all.drop_last();
        let f = open_only(all);
        let fi = open_only(init);
        assert forall|i: int| 0 <= i < f.len() implies exists|k: int| 0 <= k < all.len() && all[k] == #[trigger] f[i] by {
            if i < fi.len() {
                assert(f[i] == fi[i]);
                let k = choose|k: int| 0 <= k < init.len() && init[k] == fi[i];
                assert(all[k] == init[k]);
            } else {
                assert(f[i] == all.last());
                assert(all[all.len() - 1] == all.last());
            }
        }
    }
}

/// Keeping only the open connections keeps identifiers distinct and every
/// connection well formed.
proof fn lemma_open_only_keeps_distinct(all: Seq<ConnectionState>)
    requires
        forall|i: int, j: int| 0 <= i < j < all.len() ==> all[i].ident() != all[j].ident(),
        forall|i: int| 0 <= i < all.len() ==> (#[trigger] all[i]).well_formed(),
    ensures
        forall|i: int, j: int| 0 <= i < j < open_only(all).len() ==> open_only(all)[i].ident() != open_only(all)[j].ident(),
        forall|i: int| 0 <= i < open_only(all).len() ==> (#[trigger] open_only(all)[i]).well_formed(),
    decreases all.len(),
{
    if all.len() > 0 {
        let init = all.drop_last();
        lemma_open_only_keeps_distinct(init);
        lemma_open_only_sub(init);
        let f = open_only(all);
        let fi = open_only(init);
        if all.last().is_open() {
            assert(f == fi.push(all.last()));
            assert forall|i: int, j: int| 0 <= i < j < f.len() implies f[i].ident() != f[j].ident() by {
                if j == f.len() - 1 {
                    assert(f[i] == fi[i]);
                    let k = choose|k: int| 0 <= k < init.len() && init[k] == #[trigger] fi[i];
                    assert(all[k] == init[k]);
                    assert(all[all.len() - 1] == all.last());
                } else {
                    assert(f[i] == fi[i] && f[j] == fi[j]);
                }
            }
            assert forall|i: int| 0 <= i < f.len() implies (#[trigger] f[i]).well_formed() by {
                if i < f.len() - 1 {
                    assert(f[i] == fi[i]);
                } else {
                    assert(all[all.len() - 1] == all.last());
                }
            }
        } else {
            assert(f == fi);
        }
    }
}

/// After a cleanup every connection left can be written to, and every
/// connection that could be written to is left.
pub proof fn law_cleanup_keeps_the_open(conns: Seq<ConnectionState>)
    ensures
        forall|i: int| 0 <= i < open_only(conns).len() ==> (#[trigger] open_only(conns)[i]).is_open(),
        forall|k: int| 0 <= k < conns.len() && (#[trigger] conns[k]).is_open() ==> open_only(conns).contains(conns[k]),
    decreases conns.len(),
{
    if conns.len() > 0 {
        let init = conns.drop_last();
        law_cleanup_keeps_the_open(init);
        let f = open_only(conns);
        let fi = open_only(init);
        assert forall|k: int| 0 <= k < conns.len() && (#[trigger] conns[k]).is_open() implies f.contains(conns[k]) by {
            if k < conns.len() - 1 {
                assert(conns[k] == init[k]);
                assert(fi.contains(init[k]));
                let j = choose|j: int| 0 <= j < fi.len() && fi[j] == init[k];
                if conns.last().is_open() {
                    assert(f[j] == fi[j]);
                } else {
                    assert(f == fi);
                }
            } else {
                assert(conns[k] == conns.last());
                assert(f[f.len() - 1] == conns.last());
            }
        }
        assert forall|i: int| 0 <= i < f.len() implies (#[trigger] f[i]).is_open() by {
            if conns.last().is_open() {
                if i < fi.len() {
                    assert(f[i] == fi[i]);
                }
            } else {
                assert(f == fi);
            }
        }
    }
}
} // verus!
