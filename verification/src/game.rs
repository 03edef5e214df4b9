//! The world-state side of the host: the actor registry, the spawn manager
//! and the peer-sync manager, driven once per tick.

use crate::actor::ActorManager;
use crate::packet::OutgoingP2pPacketRequest;
use crate::peer::PeerManager;
use crate::spawn::SpawnManager;
use crate::variant::Vector3;
use vstd::prelude::*;

verus! {

/// The managers of the hosted world.
pub struct Game {
    pub actor_manager: ActorManager,
    pub spawn_manager: SpawnManager,
    pub peer_manager: PeerManager,
}

impl Game {
    /// Whether every manager's invariant holds.
    pub open spec fn wf(&self) -> bool {
        self.actor_manager.wf() && self.spawn_manager.wf()
    }

    /// A fresh world: an empty registry, a spawn manager over the given
    /// points, and a quiet peer-sync set.
    pub fn new(
        spawn_points: Vec<(String, Vec<Vector3>)>,
        now_ms: u64,
        initial_rain_permille: u32,
    ) -> (g: Game)
        requires
            now_ms < 0xf000000000000000,
            initial_rain_permille <= 1000,
        ensures
            g.wf(),
            g.actor_manager.actors@ == Seq::<crate::actor::Actor>::empty(),
    {
        Game {
            actor_manager: ActorManager::new(),
            spawn_manager: SpawnManager::new(spawn_points, now_ms, initial_rain_permille),
            peer_manager: PeerManager::new(now_ms),
        }
    }

    /// The timed maintenance of one tick that needs no outside help: expired
    /// spawns leave the world — registry, spawn lists and deadlines — with a
    /// `queue_free` broadcast each, and the peer-sync drain runs if its
    /// window has passed, one `request_actors` packet per pending peer. The
    /// spawn plans of the tick are produced separately, since finishing a
    /// position is the caller's work.
    pub fn on_update(
        &mut self,
        outbox: &mut Vec<OutgoingP2pPacketRequest>,
        host_id: u64,
        now_ms: u64,
    )
        requires
            old(self).wf(),
        ensures
            final(self).wf(),
            final(outbox)@.take(old(outbox)@.len() as int) == old(outbox)@,
            forall|i: int|
                0 <= i < final(self).spawn_manager.spawn_timeouts@.len()
                    ==> (#[trigger] final(self).spawn_manager.spawn_timeouts@[i]).1 >= now_ms,
            forall|id: i64|
                crate::spawn::expired_ids(old(self).spawn_manager.spawn_timeouts@, now_ms).contains(
                    id,
                ) ==> !#[trigger] final(self).actor_manager.has_actor(id),
            forall|t: crate::actor::ActorType, id: i64|
                #![trigger final(self).spawn_manager.game_ids(t).contains(id)]
                crate::spawn::expired_ids(old(self).spawn_manager.spawn_timeouts@, now_ms).contains(
                    id,
                ) ==> !final(self).spawn_manager.game_ids(t).contains(id),
            now_ms <= old(self).peer_manager.last_actor_update_request_ms
                + crate::peer::PEER_SYNC_TIMEOUT_MS ==> final(self).peer_manager == old(
                self,
            ).peer_manager,
            now_ms > old(self).peer_manager.last_actor_update_request_ms
                + crate::peer::PEER_SYNC_TIMEOUT_MS ==> ({
                let pending = old(self).peer_manager.steam_ids_need_actor_update@;
                &&& final(self).peer_manager.steam_ids_need_actor_update@ == Seq::<u64>::empty()
                &&& final(self).peer_manager.last_actor_update_request_ms == now_ms
                &&& final(outbox)@.len() >= old(outbox)@.len() + pending.len()
                &&& forall|k: int|
                    #![trigger pending[k]]
                    0 <= k < pending.len() ==> ({
                        let j = final(outbox)@.len() - pending.len() + k;
                        &&& final(outbox)@[j].data@ == crate::wire::enc(
                            crate::variant::VariantView::Dictionary(
                                crate::packet::request_actors_packet_view(host_id),
                            ),
                        )
                        &&& final(outbox)@[j].target == crate::packet::P2pPacketTarget::SteamId(
                            pending[k],
                        )
                        &&& final(outbox)@[j].channel == crate::packet::P2pChannel::GameState
                        &&& final(outbox)@[j].send_type == crate::packet::Reliability::Reliable
                    })
            }),
    {
        let ghost pre = outbox@;
        self.spawn_manager.on_update_expiry(&mut self.actor_manager, outbox, now_ms);
        let ghost mid = outbox@;
        self.peer_manager.on_update(outbox, host_id, now_ms);
        proof {
            assert forall|q: int| 0 <= q < pre.len() implies outbox@[q] == pre[q] by {
                if outbox@.len() > mid.len() {
                    assert(outbox@.take(mid.len() as int)[q] == outbox@[q]);
                }
                assert(mid.take(pre.len() as int)[q] == mid[q]);
            }
            assert(outbox@.take(pre.len() as int) =~= pre);
        }
    }
}

} // verus!
