use vstd::prelude::*;
use crate::api::AuthLevel;
use crate::mailbox::{Address, Message};
use crate::protocol::hidio::HIDIOPacketType;

verus! {

/// HID-IO command id of host macros
pub const HOST_MACRO: u32 = 0x19;

/// HID-IO command id of KLL state
pub const KLL_STATE: u32 = 0x20;

/// HID-IO command id of terminal output
pub const TERMINAL_OUT: u32 = 0x34;

/// HID-IO command id of manufacturing results
pub const MANUFACTURING_RESULT: u32 = 0x51;

/// Largest number of node list updates in flight to one subscriber
pub const MAX_REQUESTS_IN_FLIGHT: u32 = 5;

/// What a subscription does with a message of the broadcast stream
#[derive(Debug, Clone, Copy, PartialEq, Eq, Structural)]
pub enum SubscriptionStep {
    /// The subscription ends
    Stop,
    /// The message is sent to the subscriber
    Forward,
    /// The message is not for this subscriber
    Skip,
}

/// Whether a message ends the subscription `sid` of node `uid`: any message from
/// `DropSubscription`, or one addressed to this subscription or to all subscriptions.
pub open spec fn ends_subscription(uid: u64, sid: u64, msg: Message) -> bool {
    msg.src == Address::DropSubscription || msg.dst == (Address::CancelSubscription { uid, sid })
        || msg.dst == Address::CancelAllSubscriptions
}

/// Whether a command id is one that keyboard subscribers are sent: terminal output,
/// KLL state, host macros and manufacturing results.
pub open spec fn keyboard_command(id: u32) -> bool {
    id == TERMINAL_OUT || id == KLL_STATE || id == HOST_MACRO || id == MANUFACTURING_RESULT
}

/// The keyboard subscription step: stop at the end of the subscription; forward Data
/// packets of the subscribed device with a keyboard command; skip the rest.
pub open spec fn spec_keyboard_subscription_step(uid: u64, sid: u64, msg: Message) -> SubscriptionStep {
    if ends_subscription(uid, sid, msg) {
        SubscriptionStep::Stop
    } else if msg.src == (Address::DeviceHidio { uid }) && msg.data.ptype == HIDIOPacketType::Data
        && keyboard_command(msg.data.id) {
        SubscriptionStep::Forward
    } else {
        SubscriptionStep::Skip
    }
}

fn ends(uid: u64, sid: u64, msg: &Message) -> (r: bool)
    ensures
        r == ends_subscription(uid, sid, *msg),
{
    msg.src == Address::DropSubscription || msg.dst == (Address::CancelSubscription { uid, sid })
        || msg.dst == Address::CancelAllSubscriptions
}

/// Decides what the keyboard subscription `sid` of device `uid` does with a message.
pub fn keyboard_subscription_step(uid: u64, sid: u64, msg: &Message) -> (r: SubscriptionStep)
    ensures
        r == spec_keyboard_subscription_step(uid, sid, *msg),
{
    if ends(uid, sid, msg) {
        SubscriptionStep::Stop
    } else if msg.src == (Address::DeviceHidio { uid }) && msg.data.ptype == HIDIOPacketType::Data && (
    msg.data.id == TERMINAL_OUT || msg.data.id == KLL_STATE || msg.data.id == HOST_MACRO
        || msg.data.id == MANUFACTURING_RESULT) {
        SubscriptionStep::Forward
    } else {
        SubscriptionStep::Skip
    }
}

/// Whether the packet watcher serves a subscriber: only with Debug authorization.
pub fn hidiowatcher_serves(auth: AuthLevel) -> (r: bool)
    ensures
        r == (auth == AuthLevel::Debug),
{
    match auth {
        AuthLevel::Debug => true,
        _ => false,
    }
}

/// Decides what the packet watcher subscription `sid` of node `uid` does with a message:
/// every message is forwarded until the subscription ends.
pub fn hidiowatcher_step(uid: u64, sid: u64, msg: &Message) -> (r: SubscriptionStep)
    ensures
        r == if ends_subscription(uid, sid, *msg) {
            SubscriptionStep::Stop
        } else {
            SubscriptionStep::Forward
        },
{
    if ends(uid, sid, msg) {
        SubscriptionStep::Stop
    } else {
        SubscriptionStep::Forward
    }
}

/// The node uid that a watched packet reports for an address (0 for addresses without
/// one).
pub open spec fn spec_address_uid(a: Address) -> u64 {
    match a {
        Address::ApiCapnp { uid } => uid,
        Address::CancelSubscription { uid, sid } => uid,
        Address::DeviceHidio { uid } => uid,
        Address::DeviceHid { uid } => uid,
        _ => 0,
    }
}

/// The node uid that a watched packet reports for an address.
pub fn address_uid(a: Address) -> (r: u64)
    ensures
        r == spec_address_uid(a),
{
    match a {
        Address::ApiCapnp { uid } => uid,
        Address::CancelSubscription { uid, sid: _ } => uid,
        Address::DeviceHidio { uid } => uid,
        Address::DeviceHid { uid } => uid,
        _ => 0,
    }
}

/// Whether the node list must be pushed to the subscribers: a node was created since the
/// last refresh, or the number of nodes changed.
pub fn nodes_update_needed(new_since_refresh: bool, count: usize, last_count: usize) -> (r: bool)
    ensures
        r == (new_since_refresh || count != last_count),
{
    new_since_refresh || count != last_count
}

/// Whether another node list update may be sent to a subscriber with `in_flight` updates
/// not yet answered.
pub fn update_allowed(in_flight: u32) -> (r: bool)
    ensures
        r == (in_flight < MAX_REQUESTS_IN_FLIGHT),
{
    in_flight < MAX_REQUESTS_IN_FLIGHT
}


/// Whether a node's authorization lets it send commands to a keyboard: Secure or Debug.
pub fn commands_allowed(auth: AuthLevel) -> (r: bool)
    ensures
        r == (auth == AuthLevel::Secure || auth == AuthLevel::Debug),
{
    match auth {
        AuthLevel::Secure => true,
        AuthLevel::Debug => true,
        AuthLevel::Basic => false,
    }
}

} // verus!
