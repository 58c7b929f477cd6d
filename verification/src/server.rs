//! The connection engine: what a connection's owner must do after each
//! read.
//!
//! The owner of a connection reads from it, hands what it read to
//! `handle_connection`, and does what comes back: it writes an answer,
//! shuts the write side down, or sees a record persisted and reports how
//! that went. Whether a connection has a subscription is asked of the
//! broker at every turn and kept nowhere else.

use crate::addr::PeerAddr;
use crate::broker::{delivered_to, Delivery, Subscriber};
use crate::handler::{
    get_response, ping_value_response, pong_response, set_record, set_response,
    subscribed_response, unknown_response, unsubscribed_response, HandlerState, MyHandlerService,
};
use crate::parser::{
    parse_non_subscription_command, parse_subscription_command, spec_parse_non_subscription,
    spec_parse_subscription, utf8_lossy, NonSubscriptionCmd, NonSubscriptionCmdType,
    SubscriptionCmd, SubscriptionCmdType,
};
use tokio::sync::mpsc::UnboundedSender;
use vstd::prelude::*;

verus! {

/// The size of the buffer into which a connection is read.
pub const DEFAULT_BUFFER_SIZE: usize = 1024;

/// What the owner of a connection must do after a read.
#[derive(Debug, PartialEq, Eq)]
pub enum Action {
    /// Shut the write side of the connection down.
    Shutdown,
    /// Write these bytes to the connection.
    Respond(Vec<u8>),
    /// Persist the record under the key, and hand the outcome to
    /// `handle_persisted`.
    Persist(String, Vec<u8>),
    /// Nothing: the message went to these subscribers.
    Published(Vec<Delivery>),
    /// Shut the write side down, write these bytes as far as that still
    /// goes, and end the session.
    Close(Vec<u8>),
}

/// An `Action` as contracts see it.
pub enum ActionView {
    Shutdown,
    Respond(Seq<u8>),
    Persist(Seq<char>, Seq<u8>),
    Published(Seq<Delivery>),
    Close(Seq<u8>),
}

impl View for Action {
    type V = ActionView;

    open spec fn view(&self) -> ActionView {
        match self {
            Action::Shutdown => ActionView::Shutdown,
            Action::Respond(bytes) => ActionView::Respond(bytes@),
            Action::Persist(key, record) => ActionView::Persist(key@, record@),
            Action::Published(deliveries) => ActionView::Published(deliveries@),
            Action::Close(bytes) => ActionView::Close(bytes@),
        }
    }
}

/// The state of a session.
#[derive(Debug, Clone, Copy, PartialEq, Eq, Structural)]
pub enum SessionState {
    /// Open, without a subscription: input is read as commands.
    Unsubscribed,
    /// Open, with a subscription: input is published.
    Subscribed,
    /// Ended.
    Closed,
}

/// The state of the session of the connection at `address`, as long as it
/// is open: the broker knows whether it has a subscription.
pub open spec fn open_session_state(state: HandlerState, address: PeerAddr) -> SessionState {
    if state.broker.is_subscribed(address) {
        SessionState::Subscribed
    } else {
        SessionState::Unsubscribed
    }
}

/// What was read, without the zero bytes that pad it.
pub open spec fn strip_padding(buffer: Seq<u8>) -> Seq<u8> {
    buffer.filter(|byte: u8| byte != 0)
}

/// What a command does on a connection without a subscription: the
/// handler afterwards, and what the connection's owner must do.
pub open spec fn non_subscription_step(
    state: HandlerState,
    sender: UnboundedSender<Vec<u8>>,
    address: PeerAddr,
    cmd: NonSubscriptionCmd,
) -> (HandlerState, ActionView) {
    match cmd {
        NonSubscriptionCmd::Exit => (state, ActionView::Shutdown),
        NonSubscriptionCmd::Ping => (state, ActionView::Respond(pong_response())),
        NonSubscriptionCmd::PingValue(value) => (
            state,
            ActionView::Respond(ping_value_response(value)),
        ),
        NonSubscriptionCmd::Get(key) => (
            state,
            ActionView::Respond(get_response(state.table, key)),
        ),
        NonSubscriptionCmd::SetValue(key, value) => (
            HandlerState { table: state.table.insert(key, set_record(value)), ..state },
            ActionView::Persist(key, set_record(value)),
        ),
        NonSubscriptionCmd::Subscribe(topic) => (
            HandlerState {
                broker: state.broker.subscribe(Subscriber { addr: address, sender }, topic),
                ..state
            },
            ActionView::Respond(subscribed_response()),
        ),
        NonSubscriptionCmd::Other => (state, ActionView::Respond(unknown_response())),
    }
}

/// The handler after a command on a connection with a subscription.
pub open spec fn subscription_step(state: HandlerState, address: PeerAddr, cmd: SubscriptionCmd)
    -> HandlerState {
    match cmd {
        SubscriptionCmd::Publish(_) => state,
        SubscriptionCmd::Unsubscribe => HandlerState {
            broker: state.broker.unsubscribe(address),
            ..state
        },
    }
}

/// Whether `action` is what the owner of a connection with a subscription
/// must do after `cmd`: after a message, nothing, the message having gone
/// to the other subscribers of the connection's topic; after the end of the
/// subscription, the answer to it.
pub open spec fn is_subscription_action(
    state: HandlerState,
    address: PeerAddr,
    cmd: SubscriptionCmd,
    action: ActionView,
) -> bool {
    match cmd {
        SubscriptionCmd::Publish(_) => action matches ActionView::Published(deliveries)
            && delivered_to(deliveries, state.broker.recipients(address)),
        SubscriptionCmd::Unsubscribe => action == ActionView::Respond(unsubscribed_response()),
    }
}

/// The handler once the far end of the connection at `address` has closed:
/// the connection has no subscription.
pub open spec fn close_step(state: HandlerState, address: PeerAddr) -> HandlerState {
    HandlerState { broker: state.broker.unsubscribe(address), ..state }
}

/// A session's state follows the broker: a connection that has subscribed
/// has a subscription at its next turn, and one that has ended its
/// subscription, or whose far end has closed, has none.
pub proof fn law_session_follows_broker(
    state: HandlerState,
    sender: UnboundedSender<Vec<u8>>,
    address: PeerAddr,
    topic: Seq<char>,
)
    ensures
        open_session_state(
            non_subscription_step(state, sender, address, NonSubscriptionCmd::Subscribe(topic)).0,
            address,
        ) == SessionState::Subscribed,
        open_session_state(
            subscription_step(state, address, SubscriptionCmd::Unsubscribe),
            address,
        ) == SessionState::Unsubscribed,
        open_session_state(close_step(state, address), address) == SessionState::Unsubscribed,
{
}

/// What a read gave: nothing where no byte was read, which means that the
/// far end has closed; else the buffer without its padding.
pub fn read(buffer: &[u8], size: usize) -> (data: Option<Vec<u8>>)
    ensures
        size == 0 ==> data is None,
        size != 0 ==> (data matches Some(bytes) && bytes@ == strip_padding(buffer@)),
{
    if size == 0 {
        return None;
    }
    let ghost kept = |byte: u8| byte != 0;
    let mut read_data: Vec<u8> = Vec::new();
    let mut i: usize = 0;
    while i < buffer.len()
        invariant
            i <= buffer@.len(),
            kept == |byte: u8| byte != 0,
            read_data@ == buffer@.take(i as int).filter(kept),
        decreases buffer@.len() - i,
    {
        proof {
            reveal(Seq::filter);
            assert(buffer@.take(i + 1).drop_last() =~= buffer@.take(i as int));
        }
        if buffer[i] != 0 {
            read_data.push(buffer[i]);
        }
        i = i + 1;
    }
    assert(buffer@.take(buffer@.len() as int) =~= buffer@);
    Some(read_data)
}

/// Does what `cmd` asks on the connection at `address`, which has no
/// subscription and whose mailbox is behind `sender`.
pub fn dispatch_non_subscription(
    handler_service: &mut MyHandlerService,
    sender: UnboundedSender<Vec<u8>>,
    address: PeerAddr,
    cmd: NonSubscriptionCmdType,
) -> (action: Action)
    ensures
        (final(handler_service)@, action@) == non_subscription_step(
            old(handler_service)@,
            sender,
            address,
            cmd@,
        ),
{
    match cmd {
        NonSubscriptionCmdType::Exit => Action::Shutdown,
        NonSubscriptionCmdType::Ping => Action::Respond(handler_service.handle_ping_cmd()),
        NonSubscriptionCmdType::PingValue(value) => Action::Respond(
            handler_service.handle_ping_value_cmd(value),
        ),
        NonSubscriptionCmdType::Get(key) => Action::Respond(
            handler_service.handle_get_cmd(key.as_str()),
        ),
        NonSubscriptionCmdType::SetValue(key, value) => {
            let record = handler_service.handle_set_cmd(key.clone(), value);
            Action::Persist(key, record)
        },
        NonSubscriptionCmdType::Subscribe(topic) => Action::Respond(
            handler_service.handle_subscribe_cmd(sender, address, topic),
        ),
        NonSubscriptionCmdType::Other => Action::Respond(handler_service.handle_other_cmd()),
    }
}

/// Takes `data` as a command of the connection at `address`, which has no
/// subscription, and does what it asks.
pub fn handle_non_subscription_connection(
    handler_service: &mut MyHandlerService,
    sender: UnboundedSender<Vec<u8>>,
    address: PeerAddr,
    data: Vec<u8>,
) -> (action: Action)
    ensures
        (final(handler_service)@, action@) == non_subscription_step(
            old(handler_service)@,
            sender,
            address,
            spec_parse_non_subscription(utf8_lossy(data@)),
        ),
{
    let cmd_type = parse_non_subscription_command(data);
    dispatch_non_subscription(handler_service, sender, address, cmd_type)
}

/// Does what `cmd` asks on the connection at `address`, which has a
/// subscription.
pub fn dispatch_subscription(
    handler_service: &mut MyHandlerService,
    address: PeerAddr,
    cmd: SubscriptionCmdType,
) -> (action: Action)
    ensures
        final(handler_service)@ == subscription_step(old(handler_service)@, address, cmd@),
        is_subscription_action(old(handler_service)@, address, cmd@, action@),
{
    match cmd {
        SubscriptionCmdType::Publish(message) => Action::Published(
            handler_service.handle_publish_cmd(address, message),
        ),
        SubscriptionCmdType::Unsubscribe => Action::Respond(
            handler_service.handle_unsubscribe_cmd(address),
        ),
    }
}

/// Takes `data` as the input of the connection at `address`, which has a
/// subscription: publishes it, or ends the subscription.
pub fn handle_subscription_connection(
    handler_service: &mut MyHandlerService,
    address: PeerAddr,
    data: Vec<u8>,
) -> (action: Action)
    ensures
        final(handler_service)@ == subscription_step(
            old(handler_service)@,
            address,
            spec_parse_subscription(utf8_lossy(data@), data@),
        ),
        is_subscription_action(
            old(handler_service)@,
            address,
            spec_parse_subscription(utf8_lossy(data@), data@),
            action@,
        ),
{
    let cmd_type = parse_subscription_command(data);
    dispatch_subscription(handler_service, address, cmd_type)
}

/// Takes the outcome of persisting the record of `key`, which a `set` asked
/// for: what is to be answered, the key being taken out again where its
/// record was not persisted.
pub fn handle_persisted(handler_service: &mut MyHandlerService, key: &str, persisted: bool) -> (action:
    Action)
    ensures
        action@ == ActionView::Respond(set_response()),
        final(handler_service)@.table == if persisted {
            old(handler_service)@.table
        } else {
            old(handler_service)@.table.remove(key@)
        },
        final(handler_service)@.broker == old(handler_service)@.broker,
{
    Action::Respond(handler_service.handle_set_outcome(key, persisted))
}

/// One turn of the session of the connection at `address`, whose mailbox is
/// behind `sender`: takes what a read gave and says what to do and in which
/// state the session then is.
///
/// Where the read gave nothing, the far end has closed: the write side is
/// to be shut down, the connection's subscription ends whether or not it
/// had one, and the session is over. Else the broker says whether the
/// connection has a subscription, and the input is taken accordingly.
pub fn handle_connection(
    handler_service: &mut MyHandlerService,
    sender: UnboundedSender<Vec<u8>>,
    address: PeerAddr,
    input: Option<Vec<u8>>,
) -> (turn: (Action, SessionState))
    ensures
        match input {
            None => {
                &&& final(handler_service)@ == close_step(old(handler_service)@, address)
                &&& turn.0@ == ActionView::Close(unsubscribed_response())
                &&& turn.1 == SessionState::Closed
            },
            Some(data) => {
                &&& turn.1 == open_session_state(final(handler_service)@, address)
                &&& if old(handler_service)@.broker.is_subscribed(address) {
                    &&& final(handler_service)@ == subscription_step(
                        old(handler_service)@,
                        address,
                        spec_parse_subscription(utf8_lossy(data@), data@),
                    )
                    &&& is_subscription_action(
                        old(handler_service)@,
                        address,
                        spec_parse_subscription(utf8_lossy(data@), data@),
                        turn.0@,
                    )
                } else {
                    (final(handler_service)@, turn.0@) == non_subscription_step(
                        old(handler_service)@,
                        sender,
                        address,
                        spec_parse_non_subscription(utf8_lossy(data@)),
                    )
                }
            },
        },
{
    let Some(read_data) = input else {
        let farewell = handler_service.handle_unsubscribe_cmd(address);
        return (Action::Close(farewell), SessionState::Closed);
    };
    let subscription_connection = handler_service.is_subscription_connection(address);
    let action = if subscription_connection {
        handle_subscription_connection(handler_service, address, read_data)
    } else {
        handle_non_subscription_connection(handler_service, sender, address, read_data)
    };
    let state = if handler_service.is_subscription_connection(address) {
        SessionState::Subscribed
    } else {
        SessionState::Unsubscribed
    };
    (action, state)
}

} // verus!
