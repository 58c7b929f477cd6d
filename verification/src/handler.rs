//! The handler: what each command does to the table and the broker, and
//! what is answered.
//!
//! The handler computes and never writes: each answer is handed back as
//! bytes, for the connection's owner to send. Every record in its table
//! can be decoded.

use crate::addr::PeerAddr;
use crate::broker::{delivered_to, BrokerState, Delivery, MyBrokerService, Subscriber};
use crate::redis::{cache_view, spec_read_cache, MyRedisService, Table};
use crate::tlv::{
    from_tlv, is_record, is_tlv, lemma_round_trip, spec_from_tlv, spec_to_tlv, to_tlv, TLVType,
};
use tokio::sync::mpsc::UnboundedSender;
use vstd::prelude::*;
use vstd::string::*;

verus! {

/// The byte that ends each answer.
pub const LINE_FEED: u8 = 10;

/// The handler as contracts see it: its table and its broker.
pub struct HandlerState {
    pub table: Table,
    pub broker: BrokerState,
}

/// Whether every record of `table` can be decoded.
pub open spec fn all_records(table: Table) -> bool {
    forall|key: Seq<char>| table.contains_key(key) ==> is_record(#[trigger] table[key])
}

/// The bytes of `text`.
pub open spec fn bytes_of(text: &str) -> Seq<u8> {
    text.spec_bytes()
}

/// The answer to `ping`.
pub open spec fn pong_response() -> Seq<u8> {
    bytes_of("pong\n")
}

/// The answer to `ping <value>`: the value and a line feed.
pub open spec fn ping_value_response(value: Seq<u8>) -> Seq<u8> {
    value.push(LINE_FEED)
}

/// The answer to `get <key>`: the payload of the record held under the key
/// and a line feed, or that nothing was found.
pub open spec fn get_response(table: Table, key: Seq<char>) -> Seq<u8> {
    if table.contains_key(key) {
        spec_from_tlv(table[key]).push(LINE_FEED)
    } else {
        bytes_of("not found\n")
    }
}

/// The record under which `set` holds `value`.
pub open spec fn set_record(value: Seq<u8>) -> Seq<u8> {
    spec_to_tlv(value, TLVType::String)
}

/// The answer to `set <key> <value>`, whether or not the record was
/// persisted.
pub open spec fn set_response() -> Seq<u8> {
    bytes_of("set ok\n")
}

/// The answer to `subscribe <topic>`.
pub open spec fn subscribed_response() -> Seq<u8> {
    bytes_of("subscribed ok\n")
}

/// The answer to `unsubscribe`, in the spelling that clients expect.
pub open spec fn unsubscribed_response() -> Seq<u8> {
    bytes_of("ubnsubscribed ok\n")
}

/// The answer to what is no command.
pub open spec fn unknown_response() -> Seq<u8> {
    bytes_of("unknown\n")
}

/// The place of the first entry of `cache`, at or after `from`, whose
/// record cannot be decoded, or the number of entries where there is none.
pub open spec fn first_malformed(cache: Seq<(Seq<char>, Seq<u8>)>, from: int) -> int
    decreases cache.len() - from,
{
    if 0 <= from < cache.len() && is_record(cache[from].1) {
        first_malformed(cache, from + 1)
    } else {
        from
    }
}

/// A table of records that can be decoded stays one when a cache of such
/// records is read into it.
proof fn lemma_read_cache_keeps_records(table: Table, cache: Seq<(Seq<char>, Seq<u8>)>)
    requires
        all_records(table),
        forall|i: int| 0 <= i < cache.len() ==> is_record(#[trigger] cache[i].1),
    ensures
        all_records(spec_read_cache(table, cache)),
    decreases cache.len(),
{
    if cache.len() > 0 {
        lemma_read_cache_keeps_records(table, cache.drop_last());
        assert(is_record(cache[cache.len() - 1].1));
    }
}

/// Repeated `get` of an unchanged key gives the same answer: the answer
/// rests on nothing but what the table holds under the key.
pub proof fn law_get_is_idempotent(before: Table, after: Table, key: Seq<char>)
    requires
        before.contains_key(key) == after.contains_key(key),
        before.contains_key(key) ==> before[key] == after[key],
    ensures
        get_response(before, key) == get_response(after, key),
{
}

/// `set <key> <value>` and then `get <key>` gives the value back, with its
/// line feed, as long as the key's record stays in the table. Where the
/// record could not be persisted and the key was taken out again, nothing
/// is found.
pub proof fn law_set_then_get(table: Table, key: Seq<char>, value: Seq<u8>)
    requires
        value.len() <= u64::MAX,
    ensures
        get_response(table.insert(key, set_record(value)), key) == value.push(LINE_FEED),
        get_response(table.insert(key, set_record(value)).remove(key), key) == bytes_of(
            "not found\n",
        ),
{
    lemma_round_trip(value, TLVType::String);
}

/// A record of a cache that cannot be decoded.
#[derive(Debug, PartialEq, Eq)]
pub struct MalformedRecord {
    /// The key under which the cache holds the record.
    pub key: String,
}

/// The handler.
pub struct MyHandlerService {
    redis_service: MyRedisService,
    broker_service: MyBrokerService,
}

impl View for MyHandlerService {
    type V = HandlerState;

    closed spec fn view(&self) -> HandlerState {
        HandlerState { table: self.redis_service@, broker: self.broker_service@ }
    }
}

impl MyHandlerService {
    #[verifier::type_invariant]
    spec fn decodable(self) -> bool {
        all_records(self.redis_service@)
    }

    /// A handler over the given table and broker.
    pub fn new(redis_service: MyRedisService, broker_service: MyBrokerService) -> (service: Self)
        requires
            all_records(redis_service@),
        ensures
            service@ == (HandlerState { table: redis_service@, broker: broker_service@ }),
    {
        Self { redis_service, broker_service }
    }

    /// The table.
    pub fn redis_service(&self) -> (table: &MyRedisService)
        ensures
            table@ == self@.table,
    {
        &self.redis_service
    }

    /// The broker.
    pub fn broker_service(&self) -> (broker: &MyBrokerService)
        ensures
            broker@ == self@.broker,
    {
        &self.broker_service
    }

    /// Takes over what a cache on disk held, each record as it is, if each
    /// can be decoded. Where one cannot, nothing is taken over, and the
    /// first such record's key comes back.
    pub fn handle_cache_recovering(&mut self, cache: Vec<(String, Vec<u8>)>) -> (result: Result<
        (),
        MalformedRecord,
    >)
        ensures
            result is Ok <==> first_malformed(cache_view(cache@), 0) == cache@.len(),
            result is Ok ==> final(self)@.table == spec_read_cache(
                old(self)@.table,
                cache_view(cache@),
            ),
            result matches Err(malformed) ==> {
                &&& final(self)@.table == old(self)@.table
                &&& malformed.key@ == cache_view(cache@)[first_malformed(cache_view(cache@), 0)].0
            },
            final(self)@.broker == old(self)@.broker,
    {
        proof {
            use_type_invariant(&*self);
        }
        let ghost entries = cache_view(cache@);
        let mut i: usize = 0;
        while i < cache.len()
            invariant
                i <= cache@.len(),
                entries == cache_view(cache@),
                first_malformed(entries, 0) == first_malformed(entries, i as int),
                forall|j: int| 0 <= j < i ==> is_record(#[trigger] entries[j].1),
            decreases cache@.len() - i,
        {
            if !is_tlv(&cache[i].1) {
                return Err(MalformedRecord { key: cache[i].0.clone() });
            }
            i = i + 1;
        }
        proof {
            lemma_read_cache_keeps_records(self.redis_service@, entries);
        }
        let mut table = MyRedisService::new();
        core::mem::swap(&mut self.redis_service, &mut table);
        table.read_cache(cache);
        self.redis_service = table;
        Ok(())
    }

    /// The answer to `ping`.
    pub fn handle_ping_cmd(&self) -> (response: Vec<u8>)
        ensures
            response@ == pong_response(),
    {
        "pong\n".as_bytes_vec()
    }

    /// The answer to `ping <value>`.
    pub fn handle_ping_value_cmd(&self, value: Vec<u8>) -> (response: Vec<u8>)
        ensures
            response@ == ping_value_response(value@),
    {
        let mut value = value;
        value.push(LINE_FEED);
        value
    }

    /// The answer to `get <key>`.
    pub fn handle_get_cmd(&self, key: &str) -> (response: Vec<u8>)
        ensures
            response@ == get_response(self@.table, key@),
    {
        proof {
            use_type_invariant(self);
        }
        let tlv = self.redis_service.get(key);
        match tlv {
            Some(tlv) => {
                let mut value = from_tlv(tlv);
                value.push(LINE_FEED);
                value
            },
            None => "not found\n".as_bytes_vec(),
        }
    }

    /// The first half of `set <key> <value>`: holds the value's record under
    /// the key, and gives the record, which is now to be persisted under
    /// that key. `handle_set_outcome` takes the outcome.
    pub fn handle_set_cmd(&mut self, key: String, value: Vec<u8>) -> (record: Vec<u8>)
        ensures
            record@ == set_record(value@),
            final(self)@.table == old(self)@.table.insert(key@, record@),
            final(self)@.broker == old(self)@.broker,
    {
        proof {
            use_type_invariant(&*self);
        }
        let tlv = to_tlv(value, TLVType::String);
        let mut table = MyRedisService::new();
        core::mem::swap(&mut self.redis_service, &mut table);
        table.set(key, tlv.clone());
        self.redis_service = table;
        tlv
    }

    /// The second half of `set <key> <value>`: takes the key out again where
    /// its record was not persisted, and gives the answer, which is the same
    /// in both cases.
    pub fn handle_set_outcome(&mut self, key: &str, persisted: bool) -> (response: Vec<u8>)
        ensures
            response@ == set_response(),
            final(self)@.table == if persisted {
                old(self)@.table
            } else {
                old(self)@.table.remove(key@)
            },
            final(self)@.broker == old(self)@.broker,
    {
        proof {
            use_type_invariant(&*self);
        }
        if !persisted {
            let mut table = MyRedisService::new();
            core::mem::swap(&mut self.redis_service, &mut table);
            table.remove(key);
            self.redis_service = table;
        }
        "set ok\n".as_bytes_vec()
    }

    /// Subscribes the connection at `socket_addr`, with the mailbox behind
    /// `sender`, to `topic`, and gives the answer.
    pub fn handle_subscribe_cmd(
        &mut self,
        sender: UnboundedSender<Vec<u8>>,
        socket_addr: PeerAddr,
        topic: String,
    ) -> (response: Vec<u8>)
        ensures
            response@ == subscribed_response(),
            final(self)@.broker == old(self)@.broker.subscribe(
                Subscriber { addr: socket_addr, sender },
                topic@,
            ),
            final(self)@.table == old(self)@.table,
    {
        proof {
            use_type_invariant(&*self);
        }
        let mut broker = MyBrokerService::new();
        core::mem::swap(&mut self.broker_service, &mut broker);
        broker.subscribe(socket_addr, sender, topic);
        self.broker_service = broker;
        "subscribed ok\n".as_bytes_vec()
    }

    /// The answer to what is no command.
    pub fn handle_other_cmd(&self) -> (response: Vec<u8>)
        ensures
            response@ == unknown_response(),
    {
        "unknown\n".as_bytes_vec()
    }

    /// Publishes `message` for the connection at `publisher_addr`, and tells
    /// of each attempt to hand it to a subscriber.
    pub fn handle_publish_cmd(&self, publisher_addr: PeerAddr, message: Vec<u8>) -> (deliveries:
        Vec<Delivery>)
        ensures
            delivered_to(deliveries@, self@.broker.recipients(publisher_addr)),
    {
        self.broker_service.publish(publisher_addr, message)
    }

    /// Ends the subscription of the connection at `socket_addr`, if it has
    /// one, and gives the answer.
    pub fn handle_unsubscribe_cmd(&mut self, socket_addr: PeerAddr) -> (response: Vec<u8>)
        ensures
            response@ == unsubscribed_response(),
            final(self)@.broker == old(self)@.broker.unsubscribe(socket_addr),
            final(self)@.table == old(self)@.table,
    {
        proof {
            use_type_invariant(&*self);
        }
        let mut broker = MyBrokerService::new();
        core::mem::swap(&mut self.broker_service, &mut broker);
        broker.unsubscribe(socket_addr);
        self.broker_service = broker;
        "ubnsubscribed ok\n".as_bytes_vec()
    }

    /// Whether the connection at `socket_addr` has a subscription.
    pub fn is_subscription_connection(&self, socket_addr: PeerAddr) -> (subscribed: bool)
        ensures
            subscribed == self@.broker.is_subscribed(socket_addr),
    {
        self.broker_service.is_subscription_connection(socket_addr)
    }
}

} // verus!
