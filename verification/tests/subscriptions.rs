use hid_io_core::api::subscriptions::{
    address_uid, commands_allowed, hidiowatcher_serves, hidiowatcher_step, keyboard_subscription_step, nodes_update_needed,
    update_allowed, SubscriptionStep,
};
use hid_io_core::api::AuthLevel;
use hid_io_core::mailbox::{command_message, Address, Mailbox};

#[test]
fn keyboard_subscription_forwards_keyboard_commands() {
    let dev = Address::DeviceHidio { uid: 4 };
    let out = command_message(dev, Address::All, 0x34, vec![b'h']);
    assert_eq!(keyboard_subscription_step(4, 1, &out), SubscriptionStep::Forward);
    let kll = command_message(dev, Address::All, 0x20, vec![]);
    assert_eq!(keyboard_subscription_step(4, 1, &kll), SubscriptionStep::Forward);
    // Another command, another device, or an acknowledgement: skipped
    let other = command_message(dev, Address::All, 0x17, vec![]);
    assert_eq!(keyboard_subscription_step(4, 1, &other), SubscriptionStep::Skip);
    assert_eq!(keyboard_subscription_step(5, 1, &out), SubscriptionStep::Skip);
    let ack = out.send_ack(vec![]);
    assert_eq!(keyboard_subscription_step(4, 1, &ack), SubscriptionStep::Skip);
}

#[test]
fn subscriptions_stop_on_cancel() {
    let mb = Mailbox::new();
    assert_eq!(keyboard_subscription_step(4, 1, &mb.drop_subscriber(4, 1)), SubscriptionStep::Stop);
    assert_eq!(keyboard_subscription_step(4, 2, &mb.drop_all_subscribers()), SubscriptionStep::Stop);
    // Another subscription's cancel message comes from DropSubscription too
    assert_eq!(hidiowatcher_step(4, 2, &mb.drop_subscriber(4, 1)), SubscriptionStep::Stop);
    let m = command_message(Address::Module, Address::CancelSubscription { uid: 4, sid: 2 }, 1, vec![]);
    assert_eq!(hidiowatcher_step(4, 2, &m), SubscriptionStep::Stop);
    assert_eq!(hidiowatcher_step(4, 3, &m), SubscriptionStep::Forward);
}

#[test]
fn watcher_auth_and_addresses() {
    assert!(hidiowatcher_serves(AuthLevel::Debug));
    assert!(!hidiowatcher_serves(AuthLevel::Secure));
    assert_eq!(address_uid(Address::DeviceHid { uid: 9 }), 9);
    assert_eq!(address_uid(Address::CancelSubscription { uid: 3, sid: 7 }), 3);
    assert_eq!(address_uid(Address::All), 0);
}

#[test]
fn node_list_updates() {
    assert!(nodes_update_needed(true, 2, 2));
    assert!(nodes_update_needed(false, 3, 2));
    assert!(!nodes_update_needed(false, 2, 2));
    assert!(update_allowed(4));
    assert!(!update_allowed(5));
}

#[test]
fn keyboard_command_authorization() {
    assert!(commands_allowed(AuthLevel::Secure));
    assert!(commands_allowed(AuthLevel::Debug));
    assert!(!commands_allowed(AuthLevel::Basic));
}
