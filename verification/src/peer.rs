//! The peer-sync manager: peers whose actor updates referenced actors this
//! host does not know are collected, and every five seconds or more the set
//! is drained with one `request_actors` packet per peer. Draining no more
//! than once per window both paces the traffic and de-duplicates requests.

use crate::packet::{build_actor_request_packet, request_actors_packet_view, send_variant_p2p,
    OutgoingP2pPacketRequest, P2pChannel, P2pPacketTarget, Reliability};
use crate::variant::VariantView;
use crate::wire::enc;
use vstd::prelude::*;

verus! {

broadcast use vstd::std_specs::vec::axiom_vec_index_decreases, vstd::std_specs::vec::axiom_spec_len;

/// The shortest time between two drains, in milliseconds.
pub const PEER_SYNC_TIMEOUT_MS: u64 = 5000;

/// The peer-sync state: who needs a backfill, and when the last drain ran.
pub struct PeerManager {
    pub steam_ids_need_actor_update: Vec<u64>,
    pub last_actor_update_request_ms: u64,
}

impl PeerManager {
    /// A fresh manager: nobody pending, the stamp set to the present.
    pub fn new(now_ms: u64) -> (m: PeerManager)
        ensures
            m.steam_ids_need_actor_update@ == Seq::<u64>::empty(),
            m.last_actor_update_request_ms == now_ms,
    {
        let pending: Vec<u64> = Vec::new();
        proof {
            assert(pending@ =~= Seq::<u64>::empty());
        }
        PeerManager { steam_ids_need_actor_update: pending, last_actor_update_request_ms: now_ms }
    }

    /// Marks a peer as needing a backfill; marking twice records once.
    pub fn add_peer_need_update(&mut self, steam_id: u64)
        ensures
            final(self).last_actor_update_request_ms == old(self).last_actor_update_request_ms,
            old(self).steam_ids_need_actor_update@.contains(steam_id)
                ==> final(self).steam_ids_need_actor_update@
                == old(self).steam_ids_need_actor_update@,
            !old(self).steam_ids_need_actor_update@.contains(steam_id)
                ==> final(self).steam_ids_need_actor_update@
                == old(self).steam_ids_need_actor_update@.push(steam_id),
    {
        if !crate::server::vec_contains_u64(&self.steam_ids_need_actor_update, steam_id) {
            self.steam_ids_need_actor_update.push(steam_id);
        }
    }

    /// Runs the paced drain: before the window has passed, nothing happens;
    /// once it has, every pending peer is sent one `request_actors` packet on
    /// the reliable game-state channel, the set empties, and the stamp is set
    /// to the present. A drain therefore reaches any one peer at most once
    /// per window.
    pub fn on_update(
        &mut self,
        outbox: &mut Vec<OutgoingP2pPacketRequest>,
        host_id: u64,
        now_ms: u64,
    )
        ensures
            now_ms <= old(self).last_actor_update_request_ms + PEER_SYNC_TIMEOUT_MS ==> ({
                &&& *final(self) == *old(self)
                &&& final(outbox)@ == old(outbox)@
            }),
            now_ms > old(self).last_actor_update_request_ms + PEER_SYNC_TIMEOUT_MS ==> ({
                let pending = old(self).steam_ids_need_actor_update@;
                &&& final(self).steam_ids_need_actor_update@ == Seq::<u64>::empty()
                &&& final(self).last_actor_update_request_ms == now_ms
                &&& final(outbox)@.len() == old(outbox)@.len() + pending.len()
                &&& final(outbox)@.take(old(outbox)@.len() as int) == old(outbox)@
                &&& forall|j: int|
                    old(outbox)@.len() <= j < final(outbox)@.len() ==> ({
                        &&& (#[trigger] final(outbox)@[j]).data@ == enc(
                            VariantView::Dictionary(request_actors_packet_view(host_id)),
                        )
                        &&& final(outbox)@[j].target == P2pPacketTarget::SteamId(
                            pending[j - old(outbox)@.len()],
                        )
                        &&& final(outbox)@[j].channel == P2pChannel::GameState
                        &&& final(outbox)@[j].send_type == Reliability::Reliable
                    })
            }),
    {
        if now_ms <= self.last_actor_update_request_ms
            || now_ms - self.last_actor_update_request_ms <= PEER_SYNC_TIMEOUT_MS {
            return ;
        }
        let ghost pending = self.steam_ids_need_actor_update@;
        let ghost pre = outbox@;
        let n = self.steam_ids_need_actor_update.len();
        let mut i: usize = 0;
        while i < n
            invariant
                i <= n,
                n == pending.len(),
                self.steam_ids_need_actor_update@ == pending,
                outbox@.len() == pre.len() + i,
                outbox@.take(pre.len() as int) == pre,
                forall|j: int|
                    pre.len() <= j < outbox@.len() ==> ({
                        &&& (#[trigger] outbox@[j]).data@ == enc(
                            VariantView::Dictionary(request_actors_packet_view(host_id)),
                        )
                        &&& outbox@[j].target == P2pPacketTarget::SteamId(pending[j - pre.len()])
                        &&& outbox@[j].channel == P2pChannel::GameState
                        &&& outbox@[j].send_type == Reliability::Reliable
                    }),
            decreases n - i,
        {
            let packet = build_actor_request_packet(host_id);
            let peer = self.steam_ids_need_actor_update[i];
            let ghost before = outbox@;
            send_variant_p2p(
                outbox,
                &packet,
                P2pPacketTarget::SteamId(peer),
                P2pChannel::GameState,
                Reliability::Reliable,
            );
            proof {
                assert(outbox@.take(pre.len() as int) =~= pre);
                assert forall|j: int|
                    pre.len() <= j < outbox@.len() implies ({
                        &&& (#[trigger] outbox@[j]).data@ == enc(
                            VariantView::Dictionary(request_actors_packet_view(host_id)),
                        )
                        &&& outbox@[j].target == P2pPacketTarget::SteamId(pending[j - pre.len()])
                        &&& outbox@[j].channel == P2pChannel::GameState
                        &&& outbox@[j].send_type == Reliability::Reliable
                    }) by {
                    if j < before.len() {
                        assert(outbox@.take(before.len() as int)[j] == outbox@[j]);
                        assert(outbox@[j] == before[j]);
                        assert(before[j].data@ == enc(
                            VariantView::Dictionary(request_actors_packet_view(host_id)),
                        ));
                    } else {
                        assert(outbox@[j] == outbox@.last());
                    }
                }
            }
            i += 1;
        }
        self.steam_ids_need_actor_update = Vec::new();
        self.last_actor_update_request_ms = now_ms;
        proof {
            assert(self.steam_ids_need_actor_update@ =~= Seq::<u64>::empty());
        }
    }
}

/// Peer-sync pacing: a drain that sends stamps its own time, and the next
/// drain's gate demands a full window past that stamp, so two sends to any
/// one peer lie more than the window apart. Marking peers in between never
/// moves the stamp.
pub proof fn lemma_peer_sync_pacing(first_send_ms: u64, stamp_ms: u64, second_send_ms: u64)
    requires
        stamp_ms == first_send_ms,
        second_send_ms > stamp_ms + PEER_SYNC_TIMEOUT_MS,
    ensures
        second_send_ms > first_send_ms + PEER_SYNC_TIMEOUT_MS,
{
}

} // verus!
