//! A client connected directly to the node's WebSocket server: what happens
//! when it connects, for each message it sends, and when it goes.

use crate::relay::{
    handle_pubsub_inbound, leave_subscription, pubsub_outcome, table_after_leaving, unparsable_reply, ErrorCode,
    Inbound, Outbound, PubsubAction, SessionState,
};
use crate::stats::Stats;
use crate::subscribers::{listed_under, SubscriberTable};
use vstd::prelude::*;

verus! {

/// A direct client: the number under which it receives relayed packets, and
/// its protocol state.
pub struct DirectClient {
    pub id: u64,
    pub session: SessionState,
}

impl DirectClient {
    /// A client connects: it gets a new number from `subs`, starts
    /// unsubscribed and counts as a connection. `None`, with nothing
    /// changed, once `subs` has no number left to give.
    pub fn connect(subs: &mut SubscriberTable, stats: &mut Stats) -> (r: Option<DirectClient>)
        requires
            old(stats).active_connections < u32::MAX,
        ensures
            final(subs)@ == old(subs)@,
            final(subs).highest_channel() >= old(subs).highest_channel(),
            old(subs).highest_channel() < u64::MAX ==> (r matches Some(c) && {
                &&& c.id == old(subs).highest_channel() + 1
                &&& c.session == SessionState { subscribed_to: None, sec_window: 0, pub_this_sec: 0 }
                &&& listed_under(final(subs)@, c.id, None)
                &&& final(stats).active_connections == old(stats).active_connections + 1
                &&& final(stats).same_but_connections(old(stats))
            }),
            old(subs).highest_channel() == u64::MAX ==> r is None && *final(stats) == *old(stats),
    {
        let id = match subs.new_channel() {
            Some(id) => id,
            None => return None,
        };
        stats.connection_opened();
        Some(DirectClient { id, session: SessionState::new() })
    }

    /// One message of the client: `None` when its text is not valid protocol
    /// JSON, which is answered `BAD_JSON` and changes nothing; otherwise the
    /// relay protocol runs it, reading the wall clock for the rate limit.
    pub fn message(&mut self, subs: &mut SubscriberTable, stats: &mut Stats, msg: Option<Inbound>) -> (r:
        PubsubAction)
        requires
            old(stats).wf(),
        ensures
            final(stats).wf(),
            final(self).id == old(self).id,
            final(subs).highest_channel() >= old(subs).highest_channel(),
            msg is None ==> {
                &&& r == PubsubAction::Reply(Outbound::Error { code: ErrorCode::BadJson })
                &&& final(subs)@ == old(subs)@
                &&& *final(stats) == *old(stats)
                &&& final(self).session == old(self).session
            },
            msg matches Some(m) ==> exists|now: u64|
                pubsub_outcome(
                    old(subs)@,
                    final(subs)@,
                    *old(stats),
                    *final(stats),
                    old(self).session,
                    final(self).session,
                    old(self).id,
                    m,
                    now,
                    r,
                ),
    {
        match msg {
            None => PubsubAction::Reply(unparsable_reply()),
            Some(m) => handle_pubsub_inbound(subs, stats, &mut self.session, self.id, m),
        }
    }

    /// The client goes: it leaves the key it was subscribed under and no
    /// longer counts as a connection.
    pub fn disconnect(self, subs: &mut SubscriberTable, stats: &mut Stats)
        ensures
            final(subs)@ == table_after_leaving(old(subs)@, self.session.subscribed_to, self.id),
            final(subs).highest_channel() == old(subs).highest_channel(),
            final(stats).active_connections == (if old(stats).active_connections == 0 {
                0
            } else {
                old(stats).active_connections - 1
            }),
            final(stats).same_but_connections(old(stats)),
    {
        leave_subscription(&self.session, subs, self.id);
        stats.connection_closed();
    }
}

} // verus!
