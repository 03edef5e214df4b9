//! The inbound packet pipeline: decompress, decode, resolve the handler by
//! the `type` field, and the handler set itself. A packet that fails any of
//! those steps is dropped without touching world state.

use crate::actor::{can_create, Actor, ActorManager, ActorType};
use crate::external::gzip_decompress;
use crate::game::Game;
use crate::packet::{build_send_ping_packet, send_ping_packet_view, send_variant_p2p,
    dict_set_fresh, P2pChannel, P2pPacketTarget, Reliability, WIRE_MAX};
use crate::server::Server;
use crate::variant::{dict_get_v, DictView, Dictionary, VariantValue, VariantView, Vector3};
use vstd::prelude::*;

verus! {

broadcast use vstd::std_specs::vec::axiom_vec_index_decreases, vstd::std_specs::vec::axiom_spec_len;

/// A peer-supplied actor insert is admitted exactly when the claimed id is
/// fresh and the peer's quota rules allow the kind; a peer is never host.
pub open spec fn peer_insert_admitted(m: ActorManager, sender: u64, id: i64, t: ActorType) -> bool {
    !m.has_actor(id) && can_create(m.actors_seq(), sender, false, t)
}

/// The registries of the two managers agree.
pub open spec fn manager_unchanged(pre: ActorManager, post: ActorManager) -> bool {
    post.actors@ == pre.actors@ && post.actor_ids_by_creator@ == pre.actor_ids_by_creator@
}

/// The registry grew by exactly one actor with the given fields, owned by
/// the sender.
pub open spec fn appended_actor(
    pre: ActorManager,
    post: ActorManager,
    sender: u64,
    id: i64,
    t: ActorType,
    zone: Seq<char>,
    zone_owner: i64,
    position: Vector3,
    rotation: Vector3,
) -> bool {
    &&& post.actors@.len() == pre.actors@.len() + 1
    &&& post.actors@.take(pre.actors@.len() as int) == pre.actors@
    &&& post.actors@.last().id == id
    &&& post.actors@.last().creator_id == sender
    &&& post.actors@.last().actor_type == t
    &&& post.actors@.last().zone@ == zone
    &&& post.actors@.last().zone_owner == zone_owner
    &&& post.actors@.last().position == position
    &&& post.actors@.last().rotation == rotation
}

/// The actor description an `instance_actor` packet carries, if every field
/// is present with its required kind: id, type name, zone, zone owner, pose.
pub open spec fn instance_params_of(pkt: DictView) -> Option<
    (i64, Seq<char>, Seq<char>, i64, Vector3, Vector3),
> {
    match dict_get_v(pkt, "params"@) {
        Some(VariantView::Dictionary(p)) => {
            match (
                dict_get_v(p, "actor_id"@),
                dict_get_v(p, "actor_type"@),
                dict_get_v(p, "zone"@),
                dict_get_v(p, "zone_owner"@),
                dict_get_v(p, "at"@),
                dict_get_v(p, "rot"@),
            ) {
                (
                    Some(VariantView::Int(id)),
                    Some(VariantView::String(tname)),
                    Some(VariantView::String(zone)),
                    Some(VariantView::Int(zone_owner)),
                    Some(VariantView::Vector3(at)),
                    Some(VariantView::Vector3(rot)),
                ) => Some((id, tname, zone, zone_owner, at, rot)),
                _ => None,
            }
        },
        _ => None,
    }
}

/// What an `instance_actor` packet does to the registry: with a fully-typed
/// description and the quota rules passed under the sender's identity (the
/// claimed creator is ignored), exactly that actor is appended; on any
/// malformed field or a refusal, nothing changes.
pub open spec fn instance_actor_effect(
    pre: ActorManager,
    post: ActorManager,
    sender: u64,
    pkt: DictView,
) -> bool {
    match instance_params_of(pkt) {
        Some((id, tname, zone, zone_owner, at, rot)) => {
            let t = ActorType::of_name_spec(tname);
            if peer_insert_admitted(pre, sender, id, t) {
                appended_actor(pre, post, sender, id, t, zone, zone_owner, at, rot)
            } else {
                manager_unchanged(pre, post)
            }
        },
        None => manager_unchanged(pre, post),
    }
}

/// What one `{id, type, owner}` record of an `actor_request_send` list does:
/// an admitted record is appended under the sender with an empty zone, no
/// zone owner, and a zero pose; anything else changes nothing.
pub open spec fn list_entry_effect(
    pre: ActorManager,
    post: ActorManager,
    sender: u64,
    entry: DictView,
) -> bool {
    match (dict_get_v(entry, "type"@), dict_get_v(entry, "id"@)) {
        (Some(VariantView::String(tname)), Some(VariantView::Int(id))) => {
            let t = ActorType::of_name_spec(tname);
            if peer_insert_admitted(pre, sender, id, t) {
                appended_actor(
                    pre,
                    post,
                    sender,
                    id,
                    t,
                    Seq::<char>::empty(),
                    -1i64,
                    Vector3 { x: 0, y: 0, z: 0 },
                    Vector3 { x: 0, y: 0, z: 0 },
                )
            } else {
                manager_unchanged(pre, post)
            }
        },
        _ => manager_unchanged(pre, post),
    }
}

/// What one list element does: a dictionary is handled as a record, anything
/// else changes nothing.
pub open spec fn list_elem_effect(
    pre: ActorManager,
    post: ActorManager,
    sender: u64,
    elem: VariantView,
) -> bool {
    match elem {
        VariantView::Dictionary(d) => list_entry_effect(pre, post, sender, d),
        _ => manager_unchanged(pre, post),
    }
}

/// What a whole `actor_request_send` list does: its elements apply in order.
pub open spec fn list_insert_effect(
    pre: ActorManager,
    post: ActorManager,
    sender: u64,
    elems: Seq<VariantView>,
) -> bool
    decreases elems.len(),
{
    if elems.len() == 0 {
        manager_unchanged(pre, post)
    } else {
        exists|mid: ActorManager|
            #[trigger] list_elem_effect(pre, mid, sender, elems[0]) && list_insert_effect(
                mid,
                post,
                sender,
                elems.drop_first(),
            )
    }
}

/// Everything the element effects say is said of the registry views, so a
/// manager with the same views steps the same way.
proof fn lemma_elem_effect_views(
    pre1: ActorManager,
    pre2: ActorManager,
    post: ActorManager,
    sender: u64,
    elem: VariantView,
)
    requires
        manager_unchanged(pre1, pre2),
        list_elem_effect(pre2, post, sender, elem),
    ensures
        list_elem_effect(pre1, post, sender, elem),
{
    match elem {
        VariantView::Dictionary(d) => {
            match (dict_get_v(d, "type"@), dict_get_v(d, "id"@)) {
                (Some(VariantView::String(tname)), Some(VariantView::Int(id))) => {
                    let t = ActorType::of_name_spec(tname);
                    assert(pre1.has_actor(id) == pre2.has_actor(id)) by {
                        if pre1.has_actor(id) {
                            let k = choose|k: int|
                                0 <= k < pre1.actors@.len() && (#[trigger] pre1.actors@[k]).id
                                    == id;
                            assert(pre2.actors@[k].id == id);
                        }
                        if pre2.has_actor(id) {
                            let k = choose|k: int|
                                0 <= k < pre2.actors@.len() && (#[trigger] pre2.actors@[k]).id
                                    == id;
                            assert(pre1.actors@[k].id == id);
                        }
                    }
                },
                _ => {},
            }
        },
        _ => {},
    }
}

/// What a whole `actor_request_send` packet does: the entries of its `list`
/// apply in order; a packet without an array `list` changes nothing.
pub open spec fn request_send_effect(
    pre: ActorManager,
    post: ActorManager,
    sender: u64,
    pkt: DictView,
) -> bool {
    match dict_get_v(pkt, "list"@) {
        Some(VariantView::Array(elems)) => list_insert_effect(pre, post, sender, elems),
        _ => manager_unchanged(pre, post),
    }
}

/// What an `actor_update` packet does: a sender's own actor takes the pose;
/// someone else's actor stands; an unknown actor marks the sender for a
/// backfill; a malformed packet changes nothing.
pub open spec fn actor_update_effect(pre: Game, post: Game, sender: u64, pkt: DictView) -> bool {
    let m = pre.actor_manager;
    &&& post.spawn_manager == pre.spawn_manager
    &&& match (dict_get_v(pkt, "actor_id"@), dict_get_v(pkt, "pos"@), dict_get_v(pkt, "rot"@)) {
        (
            Some(VariantView::Int(id)),
            Some(VariantView::Vector3(pos)),
            Some(VariantView::Vector3(rot)),
        ) => {
            if m.has_actor(id) && m.actor_of(id).creator_id == sender {
                &&& post.actor_manager.actors@ == m.actors@.update(
                    m.actor_index(id),
                    Actor { position: pos, rotation: rot, ..m.actor_of(id) },
                )
                &&& post.actor_manager.actor_ids_by_creator@ == m.actor_ids_by_creator@
                &&& post.peer_manager == pre.peer_manager
            } else if m.has_actor(id) {
                // An update from a stranger: no state change.
                &&& post.actor_manager == m
                &&& post.peer_manager == pre.peer_manager
            } else {
                let pending = pre.peer_manager.steam_ids_need_actor_update@;
                &&& post.actor_manager == m
                &&& post.peer_manager.last_actor_update_request_ms
                    == pre.peer_manager.last_actor_update_request_ms
                &&& post.peer_manager.steam_ids_need_actor_update@ == (if pending.contains(
                    sender,
                ) {
                    pending
                } else {
                    pending.push(sender)
                })
            }
        },
        _ => post == pre,
    }
}

/// Appending one element's step to a finished prefix extends the list effect.
proof fn lemma_list_effect_snoc(
    pre: ActorManager,
    cur: ActorManager,
    post: ActorManager,
    sender: u64,
    elems: Seq<VariantView>,
    elem: VariantView,
)
    requires
        list_insert_effect(pre, cur, sender, elems),
        list_elem_effect(cur, post, sender, elem),
    ensures
        list_insert_effect(pre, post, sender, elems.push(elem)),
    decreases elems.len(),
{
    if elems.len() == 0 {
        lemma_elem_effect_views(pre, cur, post, sender, elem);
        assert(elems.push(elem)[0] == elem);
        assert(elems.push(elem).drop_first() =~= Seq::<VariantView>::empty());
        assert(list_insert_effect(post, post, sender, elems.push(elem).drop_first()));
        assert(list_elem_effect(pre, post, sender, elems.push(elem)[0]) && list_insert_effect(
            post,
            post,
            sender,
            elems.push(elem).drop_first(),
        ));
    } else {
        let mid = choose|mid: ActorManager|
            #[trigger] list_elem_effect(pre, mid, sender, elems[0]) && list_insert_effect(
                mid,
                cur,
                sender,
                elems.drop_first(),
            );
        lemma_list_effect_snoc(mid, cur, post, sender, elems.drop_first(), elem);
        assert(elems.push(elem)[0] == elems[0]);
        assert(elems.push(elem).drop_first() =~= elems.drop_first().push(elem));
        assert(list_elem_effect(pre, mid, sender, elems.push(elem)[0]) && list_insert_effect(
            mid,
            post,
            sender,
            elems.push(elem).drop_first(),
        ));
    }
}

/// Inserts one `{id, type, owner}` record from an `actor_request_send` list
/// under the sender's identity, subject to the quota rules. The host-only
/// gate sees the sender as a plain peer, so no such insert ever yields a
/// host-only actor.
pub fn insert_actor_from_list(game: &mut Game, sender: u64, actor_dict: &Dictionary)
    requires
        old(game).actor_manager.wf(),
    ensures
        final(game).actor_manager.wf(),
        final(game).spawn_manager == old(game).spawn_manager,
        final(game).peer_manager == old(game).peer_manager,
        list_entry_effect(old(game).actor_manager, final(game).actor_manager, sender, actor_dict@),
{
    proof {
        reveal_strlit("type");
        reveal_strlit("id");
    }
    let type_string = match actor_dict.get("type") {
        Some(v) => match v.as_str() {
            Some(s) => s,
            None => {
                return ;
            },
        },
        None => {
            return ;
        },
    };
    let id = match actor_dict.get("id") {
        Some(v) => match v.as_int() {
            Some(i) => i,
            None => {
                return ;
            },
        },
        None => {
            return ;
        },
    };
    let actor_type = ActorType::from_name(type_string.as_str());
    if !game.actor_manager.user_can_create_actor(sender, false, actor_type) {
        return ;
    }
    match game.actor_manager.get_actor(id) {
        Some(_) => {
            return ;
        },
        None => {},
    }
    let actor = Actor {
        id,
        creator_id: sender,
        actor_type,
        zone: String::new(),
        zone_owner: -1,
        position: Vector3 { x: 0, y: 0, z: 0 },
        rotation: Vector3 { x: 0, y: 0, z: 0 },
    };
    let ghost pre = game.actor_manager.actors@;
    game.actor_manager.insert_actor(actor);
    proof {
        assert(game.actor_manager.actors@.take(pre.len() as int) =~= pre);
    }
}

/// Applies an `actor_request_send` packet: each well-formed list entry is
/// inserted under the sender, subject to quota; every actor the packet adds
/// belongs to the sender and is of no host-only kind.
pub fn handle_actor_request_send(game: &mut Game, sender: u64, packet: &Dictionary)
    requires
        old(game).actor_manager.wf(),
    ensures
        final(game).actor_manager.wf(),
        final(game).spawn_manager == old(game).spawn_manager,
        final(game).peer_manager == old(game).peer_manager,
        request_send_effect(old(game).actor_manager, final(game).actor_manager, sender, packet@),
        final(game).actor_manager.actors@.len() >= old(game).actor_manager.actors@.len(),
        final(game).actor_manager.actors@.take(old(game).actor_manager.actors@.len() as int) == old(
            game,
        ).actor_manager.actors@,
        forall|k: int|
            old(game).actor_manager.actors@.len() <= k < final(game).actor_manager.actors@.len()
                ==> (#[trigger] final(game).actor_manager.actors@[k]).creator_id == sender
                    && !final(game).actor_manager.actors@[k].actor_type.host_only(),
{
    proof {
        reveal_strlit("list");
    }
    let list = match packet.get("list") {
        Some(v) => match v.as_array() {
            Some(a) => a,
            None => {
                proof {
                    assert(final(game).actor_manager.actors@.take(
                        old(game).actor_manager.actors@.len() as int,
                    ) =~= old(game).actor_manager.actors@);
                }
                return ;
            },
        },
        None => {
            proof {
                assert(final(game).actor_manager.actors@.take(
                    old(game).actor_manager.actors@.len() as int,
                ) =~= old(game).actor_manager.actors@);
            }
            return ;
        },
    };
    let ghost lv = crate::variant::elems_view(*list);
    let n = list.len();
    let ghost pre = game.actor_manager.actors@;
    let ghost pre_m = game.actor_manager;
    let mut i: usize = 0;
    proof {
        assert(lv.take(0) =~= Seq::<VariantView>::empty());
    }
    while i < n
        invariant
            i <= n,
            n == list@.len(),
            lv == crate::variant::elems_view(*list),
            lv.len() == n,
            game.actor_manager.wf(),
            game.spawn_manager == old(game).spawn_manager,
            game.peer_manager == old(game).peer_manager,
            pre_m == old(game).actor_manager,
            pre == pre_m.actors@,
            list_insert_effect(pre_m, game.actor_manager, sender, lv.take(i as int)),
            game.actor_manager.actors@.len() >= pre.len(),
            game.actor_manager.actors@.take(pre.len() as int) == pre,
            forall|k: int|
                pre.len() <= k < game.actor_manager.actors@.len() ==> (#[trigger] game.actor_manager.actors@[k]).creator_id
                    == sender && !game.actor_manager.actors@[k].actor_type.host_only(),
        decreases n - i,
    {
        let ghost before = game.actor_manager.actors@;
        let ghost before_m = game.actor_manager;
        match list[i].as_dictionary() {
            Some(d) => {
                insert_actor_from_list(game, sender, d);
                proof {
                    assert(lv[i as int] == list@[i as int].view_rec());
                    assert(list_elem_effect(before_m, game.actor_manager, sender, lv[i as int]));
                }
            },
            None => {
                proof {
                    assert(lv[i as int] == list@[i as int].view_rec());
                    assert(!(lv[i as int] is Dictionary));
                    assert(list_elem_effect(before_m, game.actor_manager, sender, lv[i as int]));
                }
            },
        }
        proof {
            lemma_list_effect_snoc(
                pre_m,
                before_m,
                game.actor_manager,
                sender,
                lv.take(i as int),
                lv[i as int],
            );
            assert(lv.take(i as int).push(lv[i as int]) =~= lv.take(i + 1));
            assert(game.actor_manager.actors@.take(pre.len() as int) =~= pre);
            assert forall|k: int|
                pre.len() <= k < game.actor_manager.actors@.len() implies (
            #[trigger] game.actor_manager.actors@[k]).creator_id == sender
                && !game.actor_manager.actors@[k].actor_type.host_only() by {
                if k < before.len() {
                    if game.actor_manager.actors@.len() > before.len() {
                        assert(game.actor_manager.actors@.take(before.len() as int)[k]
                            == game.actor_manager.actors@[k]);
                    }
                    assert(game.actor_manager.actors@[k] == before[k]);
                } else if k < game.actor_manager.actors@.len() {
                    assert(game.actor_manager.actors@[k] == game.actor_manager.actors@.last());
                }
            }
        }
        i += 1;
    }
    proof {
        assert(lv.take(n as int) =~= lv);
    }
}

/// Applies an `instance_actor` packet: the params must carry every field of
/// the actor description; the claimed creator is ignored and the sender's
/// identity wins; the insert is subject to the quota rules, so a plain peer
/// never creates a host-only kind.
pub fn handle_instance_actor(game: &mut Game, sender: u64, packet: &Dictionary)
    requires
        old(game).actor_manager.wf(),
    ensures
        final(game).actor_manager.wf(),
        final(game).spawn_manager == old(game).spawn_manager,
        final(game).peer_manager == old(game).peer_manager,
        instance_actor_effect(old(game).actor_manager, final(game).actor_manager, sender, packet@),
        final(game).actor_manager.actors@.len() >= old(game).actor_manager.actors@.len(),
        final(game).actor_manager.actors@.take(old(game).actor_manager.actors@.len() as int) == old(
            game,
        ).actor_manager.actors@,
        forall|k: int|
            old(game).actor_manager.actors@.len() <= k < final(game).actor_manager.actors@.len()
                ==> (#[trigger] final(game).actor_manager.actors@[k]).creator_id == sender
                    && !final(game).actor_manager.actors@[k].actor_type.host_only(),
{
    proof {
        reveal_strlit("params");
        reveal_strlit("actor_id");
        reveal_strlit("actor_type");
        reveal_strlit("zone");
        reveal_strlit("zone_owner");
        reveal_strlit("at");
        reveal_strlit("rot");
    }
    let ghost pre = game.actor_manager.actors@;
    proof {
        assert(pre.take(pre.len() as int) =~= pre);
    }
    let params = match packet.get("params") {
        Some(v) => match v.as_dictionary() {
            Some(d) => d,
            None => {
                return ;
            },
        },
        None => {
            return ;
        },
    };
    let actor_id = match params.get("actor_id") {
        Some(v) => match v.as_int() {
            Some(i) => i,
            None => {
                return ;
            },
        },
        None => {
            return ;
        },
    };
    let kind_name = match params.get("actor_type") {
        Some(v) => match v.as_str() {
            Some(s) => s.clone(),
            None => {
                return ;
            },
        },
        None => {
            return ;
        },
    };
    let zone = match params.get("zone") {
        Some(v) => match v.as_str() {
            Some(s) => s.clone(),
            None => {
                return ;
            },
        },
        None => {
            return ;
        },
    };
    let zone_owner = match params.get("zone_owner") {
        Some(v) => match v.as_int() {
            Some(i) => i,
            None => {
                return ;
            },
        },
        None => {
            return ;
        },
    };
    let position = match params.get("at") {
        Some(v) => match v.as_vector3() {
            Some(p) => p,
            None => {
                return ;
            },
        },
        None => {
            return ;
        },
    };
    let rotation = match params.get("rot") {
        Some(v) => match v.as_vector3() {
            Some(p) => p,
            None => {
                return ;
            },
        },
        None => {
            return ;
        },
    };
    let actor_type = ActorType::from_name(kind_name.as_str());
    if !game.actor_manager.user_can_create_actor(sender, false, actor_type) {
        return ;
    }
    match game.actor_manager.get_actor(actor_id) {
        Some(_) => {
            return ;
        },
        None => {},
    }
    let actor = Actor {
        id: actor_id,
        creator_id: sender,
        actor_type,
        zone,
        zone_owner,
        position,
        rotation,
    };
    game.actor_manager.insert_actor(actor);
    proof {
        assert(game.actor_manager.actors@.take(pre.len() as int) =~= pre);
    }
}

/// Applies an `actor_update` packet: with a local record owned by the sender
/// the pose is applied in place; an update for someone else's actor changes
/// nothing; an update for an unknown actor marks the sender for a backfill
/// request.
pub fn handle_actor_update(game: &mut Game, sender: u64, packet: &Dictionary)
    requires
        old(game).actor_manager.wf(),
    ensures
        final(game).actor_manager.wf(),
        actor_update_effect(*old(game), *final(game), sender, packet@),
{
    proof {
        reveal_strlit("actor_id");
        reveal_strlit("pos");
        reveal_strlit("rot");
        assert("pos"@ != "rot"@) by {
            assert("pos"@[0] != "rot"@[0]);
        }
    }
    let actor_id = match packet.get("actor_id") {
        Some(v) => match v.as_int() {
            Some(i) => i,
            None => {
                return ;
            },
        },
        None => {
            return ;
        },
    };
    let pos = match packet.get("pos") {
        Some(v) => match v.as_vector3() {
            Some(p) => p,
            None => {
                return ;
            },
        },
        None => {
            return ;
        },
    };
    let rot = match packet.get("rot") {
        Some(v) => match v.as_vector3() {
            Some(p) => p,
            None => {
                return ;
            },
        },
        None => {
            return ;
        },
    };
    let owner = match game.actor_manager.get_actor(actor_id) {
        Some(a) => Some(a.creator_id),
        None => None,
    };
    match owner {
        Some(creator) => {
            if creator != sender {
                return ;
            }
            game.actor_manager.update_actor_transform(actor_id, pos, rot);
        },
        None => {
            game.peer_manager.add_peer_need_update(sender);
        },
    }
}

/// What a `request_ping` does: one `send_ping` carrying the clock text and
/// the host's identity goes back to the asker, unreliably on the game-state
/// channel, whenever the clock text fits the wire format; nothing else of
/// the server moves.
pub open spec fn request_ping_effect(
    pre_s: Server,
    post_s: Server,
    sender: u64,
    time: Seq<char>,
) -> bool {
    &&& post_s == (Server { outbox: post_s.outbox, ..pre_s })
    &&& post_s.outbox@.len() <= pre_s.outbox@.len() + 1
    &&& post_s.outbox@.take(pre_s.outbox@.len() as int) == pre_s.outbox@
    &&& (4 * time.len() <= WIRE_MAX ==> crate::packet::pushed_packet(
        pre_s.outbox@,
        post_s.outbox@,
        VariantView::Dictionary(
            send_ping_packet_view(time, crate::text::dec_str_of(pre_s.host_id as nat)),
        ),
        P2pPacketTarget::SteamId(sender),
        P2pChannel::GameState,
        Reliability::Unreliable,
    ))
}

/// Answers a `request_ping` with a `send_ping` carrying the given clock text
/// and the host's identity, unreliably on the game-state channel.
pub fn handle_request_ping(server: &mut Server, sender: u64, time_str: &String)
    ensures
        request_ping_effect(*old(server), *final(server), sender, time_str@),
{
    let ghost pre = server.outbox@;
    let from = crate::text::u64_to_string(server.host_id);
    let packet = build_send_ping_packet(time_str, &from);
    proof {
        if 4 * time_str@.len() <= WIRE_MAX {
            crate::packet::lemma_dec_len(server.host_id as nat);
        }
    }
    send_variant_p2p(
        &mut server.outbox,
        &packet,
        P2pPacketTarget::SteamId(sender),
        P2pChannel::GameState,
        Reliability::Unreliable,
    );
    proof {
        assert(server.outbox@.take(pre.len() as int) =~= pre);
    }
}

/// What a `request_actors` does: exactly one `actor_request_send` reply to
/// the asker on the reliable game-state channel, listing one thin record per
/// actor the host owns in registry order (whenever the count fits the wire
/// format); nothing else of the server moves.
pub open spec fn request_actors_effect(
    pre_s: Server,
    post_s: Server,
    am: ActorManager,
    sender: u64,
) -> bool {
    let owned = crate::actor::filter_creator(am.actors@, pre_s.host_id);
    &&& post_s == (Server { outbox: post_s.outbox, ..pre_s })
    &&& post_s.outbox@.len() <= pre_s.outbox@.len() + 1
    &&& post_s.outbox@.take(pre_s.outbox@.len() as int) == pre_s.outbox@
    &&& (owned.len() <= WIRE_MAX ==> crate::packet::pushed_packet(
        pre_s.outbox@,
        post_s.outbox@,
        VariantView::Dictionary(crate::packet::actor_request_send_packet_view(owned)),
        P2pPacketTarget::SteamId(sender),
        P2pChannel::GameState,
        Reliability::Reliable,
    ))
    &&& forall|j: int|
        pre_s.outbox@.len() <= j < post_s.outbox@.len() ==> ({
            &&& (#[trigger] post_s.outbox@[j]).target == P2pPacketTarget::SteamId(sender)
            &&& post_s.outbox@[j].channel == P2pChannel::GameState
            &&& post_s.outbox@[j].send_type == Reliability::Reliable
        })
}

/// Answers a `request_actors` as `request_actors_effect` states.
pub fn handle_request_actors(server: &mut Server, game: &Game, sender: u64)
    requires
        game.actor_manager.wf(),
    ensures
        request_actors_effect(*old(server), *final(server), game.actor_manager, sender),
{
    proof {
        reveal_strlit("type");
        reveal_strlit("list");
        reveal_strlit("actor_request_send");
        assert("type"@.len() == 4 && "list"@.len() == 4 && "actor_request_send"@.len() == 18);
        assert("type"@ != "list"@) by {
            assert("type"@[0] != "list"@[0]);
        }
    }
    let owned = game.actor_manager.get_actors_by_creator(server.host_id);
    let ghost fc = crate::actor::filter_creator(game.actor_manager.actors@, server.host_id);
    let mut list: Vec<VariantValue> = Vec::new();
    let n = owned.len();
    let mut i: usize = 0;
    proof {
        assert(crate::variant::elems_view(list) =~= crate::packet::replication_list_view(
            fc.take(0),
        ));
    }
    while i < n
        invariant
            i <= n,
            n == owned@.len(),
            owned@ == fc,
            crate::variant::elems_view(list) == crate::packet::replication_list_view(
                fc.take(i as int),
            ),
            forall|j: int|
                0 <= j < i ==> crate::wire::encodable(
                    #[trigger] crate::variant::elems_view(list)[j],
                ),
        decreases n - i,
    {
        let ghost before = crate::variant::elems_view(list);
        let record = owned[i].clone_to_replication_variant_dict();
        list.push(record);
        proof {
            assert(crate::variant::elems_view(list) =~= before.push(
                VariantView::Dictionary(crate::packet::actor_replication_view(fc[i as int])),
            ));
            assert(crate::variant::elems_view(list) =~= crate::packet::replication_list_view(
                fc.take(i + 1),
            ));
            assert forall|j: int|
                0 <= j < i + 1 implies crate::wire::encodable(
                #[trigger] crate::variant::elems_view(list)[j],
            ) by {
                if j < i {
                    assert(crate::variant::elems_view(list)[j] == before[j]);
                }
            }
        }
        i += 1;
    }
    proof {
        assert(fc.take(n as int) =~= fc);
    }
    let ghost lv = crate::variant::elems_view(list);
    let mut response = Dictionary::new();
    proof {
        assert(response@ =~= Seq::<(Seq<char>, VariantView)>::empty());
    }
    dict_set_fresh(
        &mut response,
        "type",
        VariantValue::String(String::from_str("actor_request_send")),
    );
    dict_set_fresh(&mut response, "list", VariantValue::Array(list));
    proof {
        assert(response@ =~= crate::packet::actor_request_send_packet_view(fc));
        if fc.len() <= WIRE_MAX {
            let es = crate::packet::actor_request_send_packet_view(fc);
            crate::packet::lemma_short_string_encodable("type"@);
            crate::packet::lemma_short_string_encodable("list"@);
            crate::packet::lemma_short_string_encodable("actor_request_send"@);
            assert(crate::wire::encodable(VariantView::Array(lv))) by {
                assert(lv.len() == fc.len());
                assert(forall|j: int| 0 <= j < lv.len() ==> crate::wire::encodable(
                    #[trigger] lv[j],
                ));
            }
            assert forall|j: int| 0 <= j < es.len() implies crate::wire::encodable(
                (#[trigger] es[j]).1,
            ) && vstd::utf8::encode_utf8(es[j].0).len() <= WIRE_MAX by {}
            assert(crate::wire::encodable(VariantView::Dictionary(es)));
        }
    }
    let packet = VariantValue::Dictionary(response);
    let ghost pre = server.outbox@;
    send_variant_p2p(
        &mut server.outbox,
        &packet,
        P2pPacketTarget::SteamId(sender),
        P2pChannel::GameState,
        Reliability::Reliable,
    );
    proof {
        assert(server.outbox@.take(pre.len() as int) =~= pre);
    }
}

/// Neither the registry nor the outbound queue moved.
pub open spec fn action_noop(
    pre_m: ActorManager,
    post_m: ActorManager,
    pre_out: Seq<crate::packet::OutgoingP2pPacketRequest>,
    post_out: Seq<crate::packet::OutgoingP2pPacketRequest>,
) -> bool {
    manager_unchanged(pre_m, post_m) && post_out == pre_out
}

/// What an `actor_action` packet does. `_wipe_actor` despawns its target —
/// removal plus a `queue_free` broadcast — exactly when the host owns it;
/// `_set_zone` rewrites the zone of an actor the sender owns; every other
/// case, the known no-op actions and malformed fields included, changes
/// nothing.
pub open spec fn actor_action_effect(
    pre_m: ActorManager,
    post_m: ActorManager,
    pre_out: Seq<crate::packet::OutgoingP2pPacketRequest>,
    post_out: Seq<crate::packet::OutgoingP2pPacketRequest>,
    host: u64,
    sender: u64,
    pkt: DictView,
) -> bool {
    match (dict_get_v(pkt, "action"@), dict_get_v(pkt, "actor_id"@)) {
        (Some(VariantView::String(action)), Some(VariantView::Int(actor_id))) => {
            if action == "_wipe_actor"@ {
                match dict_get_v(pkt, "params"@) {
                    Some(VariantView::Array(params)) => {
                        if params.len() > 0 && params[0] is Int {
                            let target = params[0]->Int_0;
                            if pre_m.has_actor(target) && pre_m.actor_of(target).creator_id
                                == host {
                                &&& post_m.actors@ == pre_m.actors@.remove(
                                    pre_m.actor_index(target),
                                )
                                &&& crate::packet::pushed_packet(
                                    pre_out,
                                    post_out,
                                    VariantView::Dictionary(
                                        crate::packet::actor_action_packet_view(
                                            target,
                                            "queue_free"@,
                                            Seq::empty(),
                                        ),
                                    ),
                                    P2pPacketTarget::All,
                                    P2pChannel::ActorAction,
                                    Reliability::Reliable,
                                )
                            } else {
                                action_noop(pre_m, post_m, pre_out, post_out)
                            }
                        } else {
                            action_noop(pre_m, post_m, pre_out, post_out)
                        }
                    },
                    _ => action_noop(pre_m, post_m, pre_out, post_out),
                }
            } else if action == "_set_zone"@ {
                match dict_get_v(pkt, "params"@) {
                    Some(VariantView::Array(params)) => {
                        if params.len() >= 2 && params[params.len() - 1] is String
                            && params[params.len() - 2] is Int {
                            let zone = params[params.len() - 1]->String_0;
                            let zo = params[params.len() - 2]->Int_0;
                            if pre_m.has_actor(actor_id) && pre_m.actor_of(actor_id).creator_id
                                == sender {
                                let k = pre_m.actor_index(actor_id);
                                &&& post_out == pre_out
                                &&& post_m.actors@.len() == pre_m.actors@.len()
                                &&& forall|w: int|
                                    0 <= w < pre_m.actors@.len() && w != k
                                        ==> post_m.actors@[w] == pre_m.actors@[w]
                                &&& post_m.actors@[k].zone@ == zone
                                &&& post_m.actors@[k].zone_owner == zo
                                &&& post_m.actors@[k].id == pre_m.actors@[k].id
                                &&& post_m.actors@[k].creator_id == pre_m.actors@[k].creator_id
                                &&& post_m.actors@[k].actor_type == pre_m.actors@[k].actor_type
                                &&& post_m.actors@[k].position == pre_m.actors@[k].position
                                &&& post_m.actors@[k].rotation == pre_m.actors@[k].rotation
                            } else {
                                action_noop(pre_m, post_m, pre_out, post_out)
                            }
                        } else {
                            action_noop(pre_m, post_m, pre_out, post_out)
                        }
                    },
                    _ => action_noop(pre_m, post_m, pre_out, post_out),
                }
            } else {
                action_noop(pre_m, post_m, pre_out, post_out)
            }
        },
        _ => action_noop(pre_m, post_m, pre_out, post_out),
    }
}

/// Applies an `actor_action` packet: `_wipe_actor` despawns the target if the
/// host owns it; `_set_zone` moves an actor the sender owns; the remaining
/// known actions carry no host state and are absorbed.
pub fn handle_actor_action(server: &mut Server, game: &mut Game, sender: u64, packet: &Dictionary)
    requires
        old(game).actor_manager.wf(),
    ensures
        final(game).actor_manager.wf(),
        final(game).spawn_manager == old(game).spawn_manager,
        final(game).peer_manager == old(game).peer_manager,
        final(server).host_id == old(server).host_id,
        final(server).users@ == old(server).users@,
        final(server).ban_list@ == old(server).ban_list@,
        *final(server) == (Server { outbox: final(server).outbox, ..*old(server) }),
        actor_action_effect(
            old(game).actor_manager,
            final(game).actor_manager,
            old(server).outbox@,
            final(server).outbox@,
            old(server).host_id,
            sender,
            packet@,
        ),
        // An action may despawn or move an actor, never create one.
        final(game).actor_manager.actors@.len() <= old(game).actor_manager.actors@.len(),
{
    proof {
        reveal_strlit("action");
        reveal_strlit("actor_id");
        reveal_strlit("params");
        assert("action"@ != "params"@) by {
            assert("action"@[0] != "params"@[0]);
        }
    }
    let action = match packet.get("action") {
        Some(v) => match v.as_str() {
            Some(s) => s.clone(),
            None => {
                return ;
            },
        },
        None => {
            return ;
        },
    };
    let actor_id = match packet.get("actor_id") {
        Some(v) => match v.as_int() {
            Some(i) => i,
            None => {
                return ;
            },
        },
        None => {
            return ;
        },
    };
    if crate::external::str_eq(action.as_str(), "_wipe_actor") {
        let target_id = match packet.get("params") {
            Some(v) => match v.as_array() {
                Some(a) => {
                    if a.len() == 0 {
                        return ;
                    }
                    proof {
                        assert(crate::variant::elems_view(*a)[0] == a@[0].view_rec());
                    }
                    match a[0].as_int() {
                        Some(t) => t,
                        None => {
                            return ;
                        },
                    }
                },
                None => {
                    return ;
                },
            },
            None => {
                return ;
            },
        };
        let host_owned = match game.actor_manager.get_actor(target_id) {
            Some(a) => a.creator_id == server.host_id,
            None => false,
        };
        if host_owned {
            game.actor_manager.despawn_host_actor(&mut server.outbox, target_id);
        }
    } else if crate::external::str_eq(action.as_str(), "_set_zone") {
        let (zone, zone_owner) = match packet.get("params") {
            Some(v) => match v.as_array() {
                Some(a) => {
                    if a.len() < 2 {
                        return ;
                    }
                    proof {
                        assert(crate::variant::elems_view(*a)[a@.len() - 1] == a@[a@.len()
                            - 1].view_rec());
                        assert(crate::variant::elems_view(*a)[a@.len() - 2] == a@[a@.len()
                            - 2].view_rec());
                    }
                    // The zone and its owner arrive in reverse, popped from
                    // the end of the params array.
                    let zone = match a[a.len() - 1].as_str() {
                        Some(s) => s.clone(),
                        None => {
                            return ;
                        },
                    };
                    let zone_owner = match a[a.len() - 2].as_int() {
                        Some(i) => i,
                        None => {
                            return ;
                        },
                    };
                    (zone, zone_owner)
                },
                None => {
                    return ;
                },
            },
            None => {
                return ;
            },
        };
        let sender_owned = match game.actor_manager.get_actor(actor_id) {
            Some(a) => a.creator_id == sender,
            None => false,
        };
        if sender_owned {
            game.actor_manager.set_actor_zone(actor_id, zone, zone_owner);
        }
    }
}

/// What a `new_player_join` does: the sender gets the message of the day,
/// then an `instance_actor` and an `actor_update` for every actor the host
/// owns. The exact form holds whenever the motd and the owned zones fit the
/// wire format, which every default and host spawn does.
pub open spec fn new_player_join_effect(
    pre_s: Server,
    post_s: Server,
    am: ActorManager,
    sender: u64,
) -> bool {
    let owned = crate::actor::filter_creator(am.actors@, pre_s.host_id);
    &&& post_s == (Server { outbox: post_s.outbox, ..pre_s })
    &&& post_s.outbox@.take(pre_s.outbox@.len() as int) == pre_s.outbox@
    &&& (4 * pre_s.config.motd@.len() <= WIRE_MAX && crate::packet::zones_short(owned) ==> ({
        &&& post_s.outbox@.len() == pre_s.outbox@.len() + 1 + 2 * owned.len()
        &&& post_s.outbox@[pre_s.outbox@.len() as int].data@ == crate::wire::enc(
            VariantView::Dictionary(crate::packet::message_packet_view(pre_s.config.motd@)),
        )
        &&& post_s.outbox@[pre_s.outbox@.len() as int].target == P2pPacketTarget::SteamId(sender)
        &&& post_s.outbox@[pre_s.outbox@.len() as int].channel == P2pChannel::GameState
        &&& post_s.outbox@[pre_s.outbox@.len() as int].send_type == Reliability::Reliable
        &&& crate::packet::sync_packets_from(
            post_s.outbox@,
            pre_s.outbox@.len() as int + 1,
            owned,
            sender,
        )
    }))
}

/// Greets a `new_player_join` as `new_player_join_effect` states.
pub fn handle_new_player_join(server: &mut Server, game: &Game, sender: u64)
    requires
        game.actor_manager.wf(),
    ensures
        new_player_join_effect(*old(server), *final(server), game.actor_manager, sender),
{
    let ghost pre = server.outbox@;
    let motd = server.config.motd.clone();
    server.send_chat_message(sender, &motd);
    let ghost mid = server.outbox@;
    let host_id = server.host_id;
    game.actor_manager.sync_all_owned_by(&mut server.outbox, host_id, sender);
    proof {
        let owned = crate::actor::filter_creator(game.actor_manager.actors@, host_id);
        assert(server.outbox@.take(pre.len() as int) =~= pre);
        if 4 * motd@.len() <= WIRE_MAX && crate::packet::zones_short(owned) {
            assert(mid.len() == pre.len() + 1);
            assert(server.outbox@[pre.len() as int] == mid[pre.len() as int]) by {
                assert(server.outbox@.take(mid.len() as int)[pre.len() as int] == server.outbox@[
                    pre.len() as int
                ]);
            }
            assert(mid[pre.len() as int] == mid.last());
            assert forall|k: int| 0 <= k < owned.len() implies ({
                let a = #[trigger] owned[k];
                &&& server.outbox@[mid.len() + 2 * k].data@ == crate::wire::enc(
                    VariantView::Dictionary(crate::packet::instance_actor_packet_view(a)),
                )
                &&& server.outbox@[mid.len() + 2 * k].target == P2pPacketTarget::SteamId(sender)
                &&& server.outbox@[mid.len() + 2 * k].channel == P2pChannel::GameState
                &&& server.outbox@[mid.len() + 2 * k].send_type == Reliability::Reliable
                &&& server.outbox@[mid.len() + 2 * k + 1].data@ == crate::wire::enc(
                    VariantView::Dictionary(crate::packet::actor_update_packet_view(a)),
                )
                &&& server.outbox@[mid.len() + 2 * k + 1].target == P2pPacketTarget::SteamId(
                    sender,
                )
                &&& server.outbox@[mid.len() + 2 * k + 1].channel == P2pChannel::GameState
                &&& server.outbox@[mid.len() + 2 * k + 1].send_type == Reliability::Reliable
            }) by {}
        }
    }
}

} // verus!

verus! {

/// The decoded dictionary a wire packet carries, if the gzip stream inflates
/// and the decoded head value is a dictionary.
pub open spec fn wire_packet_view(data: Seq<u8>) -> Option<DictView> {
    match crate::external::gunzip_of(data) {
        Some(bytes) => match crate::wire::dec(bytes, 0) {
            Ok((VariantView::Dictionary(es), _)) => Some(es),
            _ => None,
        },
        None => None,
    }
}

/// The packet's `type` field, if it is a string.
pub open spec fn wire_packet_kind(pv: DictView) -> Option<Seq<char>> {
    match dict_get_v(pv, "type"@) {
        Some(VariantView::String(s)) => Some(s),
        _ => None,
    }
}

/// Receives one wire packet: inflate, decode, and dispatch by the `type`
/// field. A packet that fails decompression, decoding or the dictionary
/// shape, or whose type names no handler, is dropped with server and game
/// untouched; a handled packet does exactly what its handler's effect
/// states. `handshake` records an arrival and `actor_animation_update`
/// carries no host state; both are absorbed.
pub fn on_receive_packet(
    server: &mut Server,
    game: &mut Game,
    data: &Vec<u8>,
    remote: u64,
    epoch_time_str: &String,
    now_ms: u64,
)
    requires
        old(game).wf(),
        now_ms < 0xf000000000000000,
    ensures
        final(game).wf(),
        match wire_packet_view(data@) {
            None => *final(server) == *old(server) && *final(game) == *old(game),
            Some(pv) => match wire_packet_kind(pv) {
                None => *final(server) == *old(server) && *final(game) == *old(game),
                Some(kind) => {
                    if kind == "actor_action"@ {
                        &&& actor_action_effect(
                            old(game).actor_manager,
                            final(game).actor_manager,
                            old(server).outbox@,
                            final(server).outbox@,
                            old(server).host_id,
                            remote,
                            pv,
                        )
                        &&& final(game).spawn_manager == old(game).spawn_manager
                        &&& final(game).peer_manager == old(game).peer_manager
                        &&& *final(server) == (Server {
                            outbox: final(server).outbox,
                            ..*old(server)
                        })
                    } else if kind == "actor_request_send"@ {
                        &&& request_send_effect(
                            old(game).actor_manager,
                            final(game).actor_manager,
                            remote,
                            pv,
                        )
                        &&& final(game).spawn_manager == old(game).spawn_manager
                        &&& final(game).peer_manager == old(game).peer_manager
                        &&& *final(server) == *old(server)
                    } else if kind == "actor_update"@ {
                        &&& actor_update_effect(*old(game), *final(game), remote, pv)
                        &&& *final(server) == *old(server)
                    } else if kind == "instance_actor"@ {
                        &&& instance_actor_effect(
                            old(game).actor_manager,
                            final(game).actor_manager,
                            remote,
                            pv,
                        )
                        &&& final(game).spawn_manager == old(game).spawn_manager
                        &&& final(game).peer_manager == old(game).peer_manager
                        &&& *final(server) == *old(server)
                    } else if kind == "message"@ {
                        crate::command::message_effect(
                            *old(server),
                            *final(server),
                            *old(game),
                            *final(game),
                            remote,
                            now_ms,
                            pv,
                        )
                    } else if kind == "new_player_join"@ {
                        &&& new_player_join_effect(
                            *old(server),
                            *final(server),
                            old(game).actor_manager,
                            remote,
                        )
                        &&& *final(game) == *old(game)
                    } else if kind == "request_actors"@ {
                        &&& request_actors_effect(
                            *old(server),
                            *final(server),
                            old(game).actor_manager,
                            remote,
                        )
                        &&& *final(game) == *old(game)
                    } else if kind == "request_ping"@ {
                        &&& request_ping_effect(
                            *old(server),
                            *final(server),
                            remote,
                            epoch_time_str@,
                        )
                        &&& *final(game) == *old(game)
                    } else {
                        // handshake, actor_animation_update and unknown types
                        // are absorbed.
                        *final(server) == *old(server) && *final(game) == *old(game)
                    }
                },
            },
        },
{
    let decompressed = match gzip_decompress(data) {
        Some(b) => b,
        None => {
            return ;
        },
    };
    let variant = match crate::decode::decode_variant(&decompressed) {
        Ok(v) => v,
        Err(_) => {
            return ;
        },
    };
    let dict = match variant.as_dictionary() {
        Some(d) => d,
        None => {
            return ;
        },
    };
    let ptype = match dict.get("type") {
        Some(v) => match v.as_str() {
            Some(s) => s.clone(),
            None => {
                return ;
            },
        },
        None => {
            return ;
        },
    };
    proof {
        reveal_strlit("type");
        reveal_strlit("actor_action");
        reveal_strlit("actor_animation_update");
        reveal_strlit("actor_request_send");
        reveal_strlit("actor_update");
        reveal_strlit("handshake");
        reveal_strlit("instance_actor");
        reveal_strlit("message");
        reveal_strlit("new_player_join");
        reveal_strlit("request_actors");
        reveal_strlit("request_ping");
        assert("actor_action"@.len() == 12 && "actor_animation_update"@.len() == 22
            && "actor_request_send"@.len() == 18 && "actor_update"@.len() == 12
            && "handshake"@.len() == 9 && "instance_actor"@.len() == 14 && "message"@.len() == 7
            && "new_player_join"@.len() == 15 && "request_actors"@.len() == 14
            && "request_ping"@.len() == 12);
        assert("actor_action"@ != "actor_update"@) by {
            assert("actor_action"@[6] != "actor_update"@[6]);
        }
        assert("actor_action"@ != "request_ping"@) by {
            assert("actor_action"@[0] != "request_ping"@[0]);
        }
        assert("actor_update"@ != "request_ping"@) by {
            assert("actor_update"@[0] != "request_ping"@[0]);
        }
        assert("instance_actor"@ != "request_actors"@) by {
            assert("instance_actor"@[0] != "request_actors"@[0]);
        }
    }
    if crate::external::str_eq(ptype.as_str(), "actor_action") {
        handle_actor_action(server, game, remote, dict);
    } else if crate::external::str_eq(ptype.as_str(), "actor_animation_update") {
    } else if crate::external::str_eq(ptype.as_str(), "actor_request_send") {
        handle_actor_request_send(game, remote, dict);
    } else if crate::external::str_eq(ptype.as_str(), "actor_update") {
        handle_actor_update(game, remote, dict);
    } else if crate::external::str_eq(ptype.as_str(), "handshake") {
    } else if crate::external::str_eq(ptype.as_str(), "instance_actor") {
        handle_instance_actor(game, remote, dict);
    } else if crate::external::str_eq(ptype.as_str(), "message") {
        crate::command::handle_message(server, game, remote, dict, now_ms);
    } else if crate::external::str_eq(ptype.as_str(), "new_player_join") {
        handle_new_player_join(server, game, remote);
    } else if crate::external::str_eq(ptype.as_str(), "request_actors") {
        handle_request_actors(server, game, remote);
    } else if crate::external::str_eq(ptype.as_str(), "request_ping") {
        handle_request_ping(server, remote, epoch_time_str);
    }
}

} // verus!
