//! The broker: who has subscribed to which topic, and to whom a published
//! message goes.
//!
//! The broker keeps two tables, from each subscribed connection to its
//! topic and from each topic to its subscribers. Only `subscribe` and
//! `unsubscribe` change them.

use crate::addr::PeerAddr;
use crate::vec_map::VecMap;
use tokio::sync::mpsc::UnboundedSender;
use vstd::prelude::*;

verus! {

/// The sending end of a connection's mailbox: tokio's unbounded channel.
/// Nothing is known of what is inside.
#[verifier::external_type_specification]
#[verifier::external_body]
#[verifier::reject_recursive_types(T)]
pub struct ExUnboundedSender<T>(UnboundedSender<T>);

/// One subscription: a connection and the mailbox that leads to it.
pub struct Subscriber {
    pub addr: PeerAddr,
    pub sender: UnboundedSender<Vec<u8>>,
}

impl Subscriber {
    pub fn new(addr: PeerAddr, sender: UnboundedSender<Vec<u8>>) -> (subscriber: Self)
        ensures
            subscriber == (Subscriber { addr, sender }),
    {
        Self { addr, sender }
    }
}

/// One attempt to hand a message to a subscriber.
#[derive(Debug, Clone, Copy, PartialEq, Eq, Structural)]
pub struct Delivery {
    /// The subscriber's connection.
    pub addr: PeerAddr,
    /// Whether the mailbox took the message. One whose receiving end is
    /// closed does not.
    pub accepted: bool,
}

/// The broker as contracts see it.
pub struct BrokerState {
    /// Each subscribed connection's topic.
    pub clients: Map<PeerAddr, Seq<char>>,
    /// Each topic's subscribers, in the order in which they came.
    pub subscribers: Map<Seq<char>, Seq<Subscriber>>,
}

impl BrokerState {
    /// The broker in which nobody has subscribed yet.
    pub open spec fn empty() -> BrokerState {
        BrokerState { clients: Map::empty(), subscribers: Map::empty() }
    }

    /// The subscribers of `topic`: none where the topic is unknown.
    pub open spec fn subscribers_of(self, topic: Seq<char>) -> Seq<Subscriber> {
        if self.subscribers.contains_key(topic) {
            self.subscribers[topic]
        } else {
            Seq::empty()
        }
    }

    /// Whether the connection at `addr` has a subscription.
    pub open spec fn is_subscribed(self, addr: PeerAddr) -> bool {
        self.clients.contains_key(addr)
    }

    /// The broker after `subscriber` has subscribed to `topic`: the
    /// subscriber is the topic's last, and the topic is its connection's,
    /// whatever that connection's topic was before.
    pub open spec fn subscribe(self, subscriber: Subscriber, topic: Seq<char>) -> BrokerState {
        BrokerState {
            clients: self.clients.insert(subscriber.addr, topic),
            subscribers: self.subscribers.insert(
                topic,
                self.subscribers_of(topic).push(subscriber),
            ),
        }
    }

    /// The broker after the connection at `addr` has ended its
    /// subscription: the connection has no topic, and the topic that it had
    /// has no subscriber at `addr`. Nothing changes where the connection had
    /// no subscription.
    pub open spec fn unsubscribe(self, addr: PeerAddr) -> BrokerState {
        if !self.clients.contains_key(addr) {
            self
        } else {
            let topic = self.clients[addr];
            BrokerState {
                clients: self.clients.remove(addr),
                subscribers: if self.subscribers.contains_key(topic) {
                    self.subscribers.insert(
                        topic,
                        self.subscribers[topic].filter(|s: Subscriber| s.addr != addr),
                    )
                } else {
                    self.subscribers
                },
            }
        }
    }

    /// To whom a message goes that the connection at `publisher` publishes:
    /// the subscribers of its topic but those at its own address, in their
    /// order; nobody where the connection has no subscription.
    pub open spec fn recipients(self, publisher: PeerAddr) -> Seq<Subscriber> {
        if self.clients.contains_key(publisher) {
            self.subscribers_of(self.clients[publisher]).filter(
                |s: Subscriber| s.addr != publisher,
            )
        } else {
            Seq::empty()
        }
    }
}

/// Whether `deliveries` tells of one attempt for each of `recipients`, in
/// their order.
pub open spec fn delivered_to(deliveries: Seq<Delivery>, recipients: Seq<Subscriber>) -> bool {
    &&& deliveries.len() == recipients.len()
    &&& forall|i: int|
        0 <= i < deliveries.len() ==> (#[trigger] deliveries[i]).addr == recipients[i].addr
}

/// A publisher never receives its own message, and only subscribers of its
/// topic receive it: each recipient is a subscriber of the publisher's
/// topic at another address, and without a subscription nobody receives
/// anything.
pub proof fn law_publish_isolation(state: BrokerState, publisher: PeerAddr)
    ensures
        !state.is_subscribed(publisher) ==> state.recipients(publisher).len() == 0,
        forall|i: int|
            0 <= i < state.recipients(publisher).len() ==> {
                &&& (#[trigger] state.recipients(publisher)[i]).addr != publisher
                &&& state.subscribers_of(state.clients[publisher]).contains(
                    state.recipients(publisher)[i],
                )
            },
{
    if state.is_subscribed(publisher) {
        let list = state.subscribers_of(state.clients[publisher]);
        let others = |s: Subscriber| s.addr != publisher;
        assert forall|i: int| 0 <= i < list.filter(others).len() implies {
            &&& (#[trigger] list.filter(others)[i]).addr != publisher
            &&& list.contains(list.filter(others)[i])
        } by {
            list.lemma_filter_pred(others, i);
            assert(list.filter(others).contains(list.filter(others)[i]));
            list.lemma_filter_contains_rev(others, list.filter(others)[i]);
        }
    }
}

/// A connection has one topic at a time, the one it subscribed to last:
/// once it has subscribed to `earlier` and then to `later`, its topic is
/// `later`, and what it publishes goes to the subscribers of `later` alone.
pub proof fn law_last_subscription_wins(
    state: BrokerState,
    addr: PeerAddr,
    first: UnboundedSender<Vec<u8>>,
    earlier: Seq<char>,
    second: UnboundedSender<Vec<u8>>,
    later: Seq<char>,
)
    ensures
        ({
            let after = state.subscribe(Subscriber { addr, sender: first }, earlier).subscribe(
                Subscriber { addr, sender: second },
                later,
            );
            &&& after.is_subscribed(addr)
            &&& after.clients[addr] == later
            &&& after.recipients(addr) == after.subscribers_of(later).filter(
                |s: Subscriber| s.addr != addr,
            )
            &&& forall|i: int|
                0 <= i < after.recipients(addr).len() ==> after.subscribers_of(later).contains(
                    #[trigger] after.recipients(addr)[i],
                )
        }),
{
    let after = state.subscribe(Subscriber { addr, sender: first }, earlier).subscribe(
        Subscriber { addr, sender: second },
        later,
    );
    law_publish_isolation(after, addr);
}

/// Hands `message` to the mailbox behind `sender` with
/// `UnboundedSender::send`, and says whether the mailbox took it. Taken on
/// trust: nothing is claimed of the answer, which depends on whether the
/// receiving end is still open. The call never waits. It ends the process
/// where the count of waiting messages would overflow, which no memory
/// lets happen.
#[verifier::external_body]
fn send_message(sender: &UnboundedSender<Vec<u8>>, message: Vec<u8>) -> (accepted: bool) {
    sender.send(message).is_ok()
}

/// The broker.
pub struct MyBrokerService {
    clients: VecMap<PeerAddr, String>,
    subscribers: VecMap<String, Vec<Subscriber>>,
}

impl View for MyBrokerService {
    type V = BrokerState;

    closed spec fn view(&self) -> BrokerState {
        BrokerState {
            clients: self.clients@.map_values(|topic: String| topic@),
            subscribers: self.subscribers@.map_values(|list: Vec<Subscriber>| list@),
        }
    }
}

impl MyBrokerService {
    /// A broker in which nobody has subscribed yet.
    pub fn new() -> (service: Self)
        ensures
            service@ == BrokerState::empty(),
    {
        let service = MyBrokerService { clients: VecMap::new(), subscribers: VecMap::new() };
        assert(service@.clients =~= Map::empty());
        assert(service@.subscribers =~= Map::empty());
        service
    }

    /// Whether nobody has subscribed yet: no connection has a topic, and no
    /// topic is known.
    pub fn is_empty(&self) -> (empty: bool)
        ensures
            empty == (self@ == BrokerState::empty()),
    {
        let empty = self.clients.is_empty() && self.subscribers.is_empty();
        proof {
            if empty {
                assert(self@.clients =~= Map::empty());
                assert(self@.subscribers =~= Map::empty());
            } else if !(self.clients@ =~= Map::<PeerAddr, String>::empty()) {
                let addr = choose|addr: PeerAddr| self.clients@.contains_key(addr);
                assert(self@.clients.contains_key(addr));
            } else {
                assert(!(self.subscribers@ =~= Map::<Seq<char>, Vec<Subscriber>>::empty()));
                let topic = choose|topic: Seq<char>| self.subscribers@.contains_key(topic);
                assert(self@.subscribers.contains_key(topic));
            }
        }
        empty
    }

    /// The topic of the connection at `socket_addr`, if it has a
    /// subscription.
    pub fn topic_of(&self, socket_addr: PeerAddr) -> (topic: Option<String>)
        ensures
            topic is Some <==> self@.is_subscribed(socket_addr),
            topic matches Some(name) ==> name@ == self@.clients[socket_addr],
    {
        match self.clients.get(&socket_addr) {
            Some(topic) => Some(topic.clone()),
            None => None,
        }
    }

    /// The addresses of the subscribers of `topic`, in the order in which
    /// they came, if the topic is known.
    pub fn subscriber_addrs(&self, topic: &str) -> (addrs: Option<Vec<PeerAddr>>)
        ensures
            addrs is Some <==> self@.subscribers.contains_key(topic@),
            addrs matches Some(list) ==> list@ == self@.subscribers[topic@].map_values(
                |s: Subscriber| s.addr,
            ),
    {
        let topic: String = topic.to_owned();
        match self.subscribers.get(&topic) {
            Some(list) => {
                let mut addrs: Vec<PeerAddr> = Vec::new();
                let mut i: usize = 0;
                while i < list.len()
                    invariant
                        i <= list@.len(),
                        addrs@ == list@.take(i as int).map_values(|s: Subscriber| s.addr),
                    decreases list@.len() - i,
                {
                    addrs.push(list[i].addr);
                    i = i + 1;
                    assert(addrs@ =~= list@.take(i as int).map_values(|s: Subscriber| s.addr));
                }
                assert(list@.take(list@.len() as int) =~= list@);
                Some(addrs)
            },
            None => None,
        }
    }

    /// Whether the connection at `socket_addr` has a subscription.
    pub fn is_subscription_connection(&self, socket_addr: PeerAddr) -> (subscribed: bool)
        ensures
            subscribed == self@.is_subscribed(socket_addr),
    {
        self.clients.contains_key(&socket_addr)
    }

    /// Subscribes the connection at `socket_addr`, with the mailbox behind
    /// `sender`, to `topic`.
    pub fn subscribe(
        &mut self,
        socket_addr: PeerAddr,
        sender: UnboundedSender<Vec<u8>>,
        topic: String,
    )
        ensures
            final(self)@ == old(self)@.subscribe(Subscriber { addr: socket_addr, sender }, topic@),
    {
        let subscriber = Subscriber::new(socket_addr, sender);
        let mut list: Vec<Subscriber> = match self.subscribers.remove(&topic) {
            Some(list) => list,
            None => Vec::new(),
        };
        list.push(subscriber);
        self.subscribers.insert(topic.clone(), list);
        self.clients.insert(socket_addr, topic);
        assert(self@.clients =~= old(self)@.subscribe(subscriber, topic@).clients);
        assert(self@.subscribers =~= old(self)@.subscribe(subscriber, topic@).subscribers);
    }

    /// Ends the subscription of the connection at `socket_addr`, if it has
    /// one.
    pub fn unsubscribe(&mut self, socket_addr: PeerAddr)
        ensures
            final(self)@ == old(self)@.unsubscribe(socket_addr),
    {
        match self.clients.remove(&socket_addr) {
            Some(topic) => {
                match self.subscribers.remove(&topic) {
                    Some(list) => {
                        let ghost before = list@;
                        let ghost stays = |s: Subscriber| s.addr != socket_addr;
                        let mut kept: Vec<Subscriber> = Vec::new();
                        for subscriber in it: list
                            invariant
                                it.seq() == before,
                                stays == |s: Subscriber| s.addr != socket_addr,
                                kept@ == before.take(it.index() as int).filter(stays),
                        {
                            proof {
                                reveal(Seq::filter);
                                let done = it.index() as int;
                                assert(before.take(done + 1).drop_last() =~= before.take(done));
                            }
                            if subscriber.addr != socket_addr {
                                kept.push(subscriber);
                            }
                        }
                        assert(before.take(before.len() as int) =~= before);
                        self.subscribers.insert(topic, kept);
                    },
                    None => {},
                }
                assert(self@.clients =~= old(self)@.unsubscribe(socket_addr).clients);
                assert(self@.subscribers =~= old(self)@.unsubscribe(socket_addr).subscribers);
            },
            None => {
                assert(self@.clients =~= old(self)@.clients);
            },
        }
    }

    /// Hands `message` to each subscriber of the topic of the connection at
    /// `publisher_addr`, but not to that connection itself, and tells of
    /// each attempt. A mailbox that does not take the message is passed
    /// over. Nothing happens where the connection has no subscription.
    pub fn publish(&self, publisher_addr: PeerAddr, message: Vec<u8>) -> (deliveries: Vec<
        Delivery,
    >)
        ensures
            delivered_to(deliveries@, self@.recipients(publisher_addr)),
    {
        let mut deliveries: Vec<Delivery> = Vec::new();
        match self.clients.get(&publisher_addr) {
            Some(topic) => {
                match self.subscribers.get(topic) {
                    Some(list) => {
                        let ghost others = |s: Subscriber| s.addr != publisher_addr;
                        let mut i: usize = 0;
                        while i < list.len()
                            invariant
                                i <= list@.len(),
                                others == |s: Subscriber| s.addr != publisher_addr,
                                deliveries@.len() == list@.take(i as int).filter(others).len(),
                                forall|j: int|
                                    0 <= j < deliveries@.len() ==> (#[trigger] deliveries@[j]).addr
                                        == list@.take(i as int).filter(others)[j].addr,
                            decreases list@.len() - i,
                        {
                            proof {
                                reveal(Seq::filter);
                                assert(list@.take(i + 1).drop_last() =~= list@.take(i as int));
                            }
                            let subscriber = &list[i];
                            if subscriber.addr != publisher_addr {
                                let accepted = send_message(&subscriber.sender, message.clone());
                                deliveries.push(Delivery { addr: subscriber.addr, accepted });
                            }
                            i = i + 1;
                        }
                        assert(list@.take(list@.len() as int) =~= list@);
                    },
                    None => {
                        assert(self@.recipients(publisher_addr).len() == 0) by {
                            reveal(Seq::filter);
                        }
                    },
                }
            },
            None => {},
        }
        deliveries
    }
}

} // verus!
