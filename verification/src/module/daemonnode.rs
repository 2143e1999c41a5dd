use vstd::prelude::*;
use crate::api::{Endpoint, NodeType};
use crate::mailbox::{Mailbox, UidError, reusable_uid, spec_assign, uids_of};
use crate::text::dec_digits;

verus! {

/// The daemon's own node: answers api queries about HID-IO Core itself
pub struct DaemonNode {
    pub uid: u64,
    pub endpoint: Endpoint,
}

impl DaemonNode {
    /// Assigns the daemon node its uid (empty key and path), names it after the process
    /// `pid` and registers it.
    ///
    /// Only one daemon node can exist: a second one would be refused by the uid
    /// assignment, so the caller must not ask for it.
    pub fn new(mailbox: &mut Mailbox, pid: u32) -> (r: DaemonNode)
        requires
            spec_assign(old(mailbox).nodes@, uids_of(old(mailbox).lookup@, Seq::empty()), Seq::empty(), old(mailbox).last_uid) is Ok,
            old(mailbox).last_uid < u64::MAX,
        ensures
            Ok::<u64, UidError>(r.uid) == spec_assign(old(mailbox).nodes@, uids_of(old(mailbox).lookup@, Seq::empty()), Seq::empty(), old(mailbox).last_uid),
            r.endpoint@.type_ == NodeType::HidioDaemon,
            r.endpoint@.uid == r.uid,
            r.endpoint@.name == "HID-IO Core Daemon Node"@,
            r.endpoint@.serial == "pid:"@ + dec_digits(pid as nat),
            final(mailbox).nodes@.len() == old(mailbox).nodes@.len() + 1,
            final(mailbox).nodes@.drop_last() == old(mailbox).nodes@,
            final(mailbox).nodes@.last()@ == r.endpoint@,
            final(mailbox).last_uid == if reusable_uid(old(mailbox).nodes@, uids_of(old(mailbox).lookup@, Seq::empty()), Seq::empty()) is None {
                old(mailbox).last_uid + 1
            } else {
                old(mailbox).last_uid as int
            },
            reusable_uid(old(mailbox).nodes@, uids_of(old(mailbox).lookup@, Seq::empty()), Seq::empty()) is None
                ==> uids_of(final(mailbox).lookup@, Seq::empty()) == uids_of(old(mailbox).lookup@, Seq::empty()).push(r.uid),
    {
        let key = String::new();
        let path = String::new();
        let uid = match mailbox.assign_uid(key, path) {
            Ok(uid) => uid,
            Err(_) => {
                assert(false);
                return DaemonNode { uid: 0, endpoint: Endpoint::new(NodeType::HidioDaemon, 0) };
            },
        };
        let mut endpoint = Endpoint::new(NodeType::HidioDaemon, uid);
        endpoint.set_daemonnode_params(pid);
        let node = endpoint.duplicate();
        mailbox.register_node(endpoint);
        DaemonNode { uid, endpoint: node }
    }
}

} // verus!
