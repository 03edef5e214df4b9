//! The world-state rules: quotas, the host-only gate, spawn caps and
//! lifetimes, peer-sync pacing, and the lobby protocol scenarios.

use ducky::actor::{Actor, ActorManager, ActorType};
use ducky::command::handle_rain_command;
use ducky::config::Config;
use ducky::decode::decode_variant;
use ducky::game::Game;
use ducky::handlers::{handle_actor_update, handle_instance_actor, handle_request_ping,
    on_receive_packet};
use ducky::packet::{OutgoingP2pPacketRequest, P2pChannel, P2pPacketTarget, Reliability};
use ducky::peer::PeerManager;
use ducky::server::{broadcast_targets, MemberStateChange, Server};
use ducky::spawn::SpawnManager;
use ducky::variant::{Dictionary, VariantValue, Vector3};

const HOST: u64 = 76560000000000001;
const PEER_A: u64 = 76560000000000002;
const PEER_B: u64 = 76560000000000003;

fn default_config() -> Config {
    Config::default()
}

fn fresh_game() -> Game {
    Game::new(Vec::new(), 0, 100)
}

fn fresh_server() -> Server {
    Server::new(HOST, default_config())
}

fn actor(id: i64, creator: u64, t: ActorType) -> Actor {
    Actor {
        id,
        creator_id: creator,
        actor_type: t,
        zone: "main_zone".to_string(),
        zone_owner: -1,
        position: Vector3 { x: 0, y: 0, z: 0 },
        rotation: Vector3 { x: 0, y: 0, z: 0 },
    }
}

fn packet_dict(data: &Vec<u8>) -> Dictionary {
    match decode_variant(data).unwrap() {
        VariantValue::Dictionary(d) => d,
        _ => panic!("not a dictionary"),
    }
}

fn field_str(d: &Dictionary, k: &str) -> String {
    d.get(k).and_then(|v| v.as_str()).expect("string field").clone()
}

#[test]
fn actor_quota_capped_at_32() {
    let mut m = ActorManager::new();
    let mut outbox: Vec<OutgoingP2pPacketRequest> = Vec::new();
    for i in 0..32 {
        assert!(m.spawn_host_actor(&mut outbox, HOST, actor(100 + i, HOST, ActorType::Bush)));
    }
    // The cap holds: the thirty-third insert is refused without traffic.
    let before = outbox.len();
    assert!(!m.spawn_host_actor(&mut outbox, HOST, actor(900, HOST, ActorType::Bush)));
    assert_eq!(outbox.len(), before);
    assert_eq!(m.get_actors_by_creator(HOST).len(), 32);
}

#[test]
fn spawn_broadcasts_instance_then_update() {
    let mut m = ActorManager::new();
    let mut outbox: Vec<OutgoingP2pPacketRequest> = Vec::new();
    assert!(m.spawn_host_actor(&mut outbox, HOST, actor(11, HOST, ActorType::Bush)));
    assert_eq!(outbox.len(), 2);
    // The instance goes out on the reliable game-state channel, the pose on
    // the actor-update channel.
    assert_eq!(outbox[0].channel, P2pChannel::GameState);
    assert_eq!(outbox[0].send_type, Reliability::Reliable);
    assert_eq!(field_str(&packet_dict(&outbox[0].data), "type"), "instance_actor");
    assert_eq!(outbox[1].channel, P2pChannel::ActorUpdate);
    assert_eq!(outbox[1].send_type, Reliability::Reliable);
    let upd = packet_dict(&outbox[1].data);
    assert_eq!(field_str(&upd, "type"), "actor_update");
    assert_eq!(upd.get("actor_id").and_then(|v| v.as_int()), Some(11));
}

#[test]
fn one_player_per_creator() {
    let mut m = ActorManager::new();
    let mut outbox: Vec<OutgoingP2pPacketRequest> = Vec::new();
    assert!(m.spawn_host_actor(&mut outbox, HOST, actor(1, HOST, ActorType::Player)));
    assert!(!m.user_can_create_actor(HOST, true, ActorType::Player));
    assert!(!m.spawn_host_actor(&mut outbox, HOST, actor(2, HOST, ActorType::Player)));
}

#[test]
fn colliding_id_never_overwritten() {
    let mut m = ActorManager::new();
    let mut outbox: Vec<OutgoingP2pPacketRequest> = Vec::new();
    assert!(m.spawn_host_actor(&mut outbox, HOST, actor(7, HOST, ActorType::Bush)));
    assert!(!m.spawn_host_actor(&mut outbox, HOST, actor(7, HOST, ActorType::Rock)));
    assert_eq!(m.get_actor(7).unwrap().actor_type, ActorType::Bush);
}

#[test]
fn index_consistency_on_remove() {
    let mut m = ActorManager::new();
    m.insert_actor(actor(1, PEER_A, ActorType::Bush));
    m.insert_actor(actor(2, PEER_A, ActorType::Rock));
    m.insert_actor(actor(3, PEER_B, ActorType::Bush));
    assert_eq!(m.get_actors_by_creator(PEER_A).len(), 2);
    m.remove_actor(1);
    assert_eq!(m.get_actors_by_creator(PEER_A).len(), 1);
    assert_eq!(m.get_actors_by_creator(PEER_A)[0].id, 2);
    m.remove_all_actors_by_creator(PEER_A);
    assert_eq!(m.get_actors_by_creator(PEER_A).len(), 0);
    assert_eq!(m.get_actors_by_creator(PEER_B).len(), 1);
}

fn instance_actor_packet(id: i64, kind: &str, claimed_creator: i64) -> Dictionary {
    let mut params = Dictionary::new();
    params.insert("actor_id".to_string(), VariantValue::Int(id));
    params.insert("actor_type".to_string(), VariantValue::String(kind.to_string()));
    params.insert("creator_id".to_string(), VariantValue::Int(claimed_creator));
    params.insert("zone".to_string(), VariantValue::String("main_zone".to_string()));
    params.insert("zone_owner".to_string(), VariantValue::Int(-1));
    params.insert(
        "at".to_string(),
        VariantValue::Vector3(Vector3 { x: 0, y: 0, z: 0 }),
    );
    params.insert(
        "rot".to_string(),
        VariantValue::Vector3(Vector3 { x: 0, y: 0, z: 0 }),
    );
    let mut packet = Dictionary::new();
    packet.insert("type".to_string(), VariantValue::String("instance_actor".to_string()));
    packet.insert("params".to_string(), VariantValue::Dictionary(params));
    packet
}

#[test]
fn host_only_gate_blocks_peer_instance() {
    let mut game = fresh_game();
    let packet = instance_actor_packet(50, "raincloud", 0);
    handle_instance_actor(&mut game, PEER_A, &packet);
    assert!(game.actor_manager.get_actor(50).is_none());
}

#[test]
fn instance_then_update_from_stranger() {
    let mut game = fresh_game();
    // Peer A instances actor 101; the claimed creator is ignored and the
    // sender identity wins.
    let packet = instance_actor_packet(101, "bush", 9999);
    handle_instance_actor(&mut game, PEER_A, &packet);
    let a = game.actor_manager.get_actor(101).expect("inserted");
    assert_eq!(a.creator_id, PEER_A);
    // Peer B then claims an update for it: no state change.
    let mut upd = Dictionary::new();
    upd.insert("actor_id".to_string(), VariantValue::Int(101));
    upd.insert(
        "pos".to_string(),
        VariantValue::Vector3(Vector3 { x: 0x3f800000, y: 0x40000000, z: 0x40400000 }),
    );
    upd.insert(
        "rot".to_string(),
        VariantValue::Vector3(Vector3 { x: 0, y: 0, z: 0 }),
    );
    handle_actor_update(&mut game, PEER_B, &upd);
    let a = game.actor_manager.get_actor(101).expect("still there");
    assert_eq!(a.position, Vector3 { x: 0, y: 0, z: 0 });
    // From the owner the same update lands.
    handle_actor_update(&mut game, PEER_A, &upd);
    let a = game.actor_manager.get_actor(101).expect("still there");
    assert_eq!(a.position, Vector3 { x: 0x3f800000, y: 0x40000000, z: 0x40400000 });
}

#[test]
fn update_for_unknown_actor_marks_peer() {
    let mut game = fresh_game();
    let mut upd = Dictionary::new();
    upd.insert("actor_id".to_string(), VariantValue::Int(777));
    upd.insert("pos".to_string(), VariantValue::Vector3(Vector3 { x: 1, y: 2, z: 3 }));
    upd.insert("rot".to_string(), VariantValue::Vector3(Vector3 { x: 0, y: 0, z: 0 }));
    handle_actor_update(&mut game, PEER_B, &upd);
    assert_eq!(game.peer_manager.steam_ids_need_actor_update, vec![PEER_B]);
}

#[test]
fn raincloud_over_quota_refused() {
    let mut game = fresh_game();
    let mut outbox: Vec<OutgoingP2pPacketRequest> = Vec::new();
    let pos = Vector3 { x: 0, y: 0, z: 0 };
    assert!(game.spawn_manager.spawn_planned(
        &mut game.actor_manager, &mut outbox, HOST, ActorType::Raincloud, pos, 0));
    assert!(game.spawn_manager.spawn_planned(
        &mut game.actor_manager, &mut outbox, HOST, ActorType::Raincloud, pos, 0));
    // Two rainclouds stand; the third attempt returns without insert and
    // without an instance_actor broadcast.
    let before_actors = game.actor_manager.get_actors_by_creator(HOST).len();
    let before_packets = outbox.len();
    assert!(!game.spawn_manager.spawn_planned(
        &mut game.actor_manager, &mut outbox, HOST, ActorType::Raincloud, pos, 0));
    assert_eq!(game.actor_manager.get_actors_by_creator(HOST).len(), before_actors);
    assert_eq!(outbox.len(), before_packets);
}

#[test]
fn rain_command_without_player() {
    let mut game = fresh_game();
    let mut server = fresh_server();
    handle_rain_command(&mut server, &mut game, PEER_A, 0);
    assert_eq!(game.actor_manager.get_actors_by_creator(HOST).len(), 0);
    assert_eq!(server.outbox.len(), 1);
    let p = &server.outbox[0];
    assert_eq!(p.target, P2pPacketTarget::SteamId(PEER_A));
    let dict = packet_dict(&p.data);
    assert_eq!(field_str(&dict, "type"), "message");
    assert_eq!(field_str(&dict, "message"), "Failed. No Player character found.");
}

#[test]
fn rain_command_with_player_spawns_once() {
    let mut game = fresh_game();
    let mut server = fresh_server();
    game.actor_manager.insert_actor(actor(5, PEER_A, ActorType::Player));
    handle_rain_command(&mut server, &mut game, PEER_A, 0);
    // One raincloud owned by the host now exists.
    let clouds = game.actor_manager.get_actors_by_type(ActorType::Raincloud);
    assert_eq!(clouds.len(), 1);
    assert_eq!(clouds[0].creator_id, HOST);
    // A second request is refused while the slot is full.
    handle_rain_command(&mut server, &mut game, PEER_A, 1000);
    assert_eq!(game.actor_manager.get_actors_by_type(ActorType::Raincloud).len(), 1);
}

#[test]
fn metal_spawn_expires_on_schedule() {
    let mut game = fresh_game();
    let mut outbox: Vec<OutgoingP2pPacketRequest> = Vec::new();
    let pos = Vector3 { x: 0, y: 0, z: 0 };
    assert!(game.spawn_manager.spawn_planned(
        &mut game.actor_manager, &mut outbox, HOST, ActorType::MetalSpawn, pos, 0));
    let id = game.actor_manager.get_actors_by_type(ActorType::MetalSpawn)[0].id;
    // Before the lifetime (10000 frames at 60 per second) nothing happens.
    game.on_update(&mut outbox, HOST, 166000);
    assert!(game.actor_manager.get_actor(id).is_some());
    // Just past 166.67 s the actor is gone, with a queue_free broadcast on
    // the reliable actor-action channel.
    let before = outbox.len();
    game.on_update(&mut outbox, HOST, 166670);
    assert!(game.actor_manager.get_actor(id).is_none());
    assert_eq!(outbox.len(), before + 1);
    let p = &outbox[before];
    assert_eq!(p.target, P2pPacketTarget::All);
    assert_eq!(p.channel, P2pChannel::ActorAction);
    assert_eq!(p.send_type, Reliability::Reliable);
    let dict = packet_dict(&p.data);
    assert_eq!(field_str(&dict, "type"), "actor_action");
    assert_eq!(field_str(&dict, "action"), "queue_free");
    assert_eq!(dict.get("actor_id").and_then(|v| v.as_int()), Some(id));
}

#[test]
fn ban_on_entry() {
    let mut server = fresh_server();
    let mut game = fresh_game();
    server.insert_ban_list(PEER_A);
    server.set_lobby_id(400);
    server.handle_member_change(&mut game.actor_manager, 400, PEER_A, MemberStateChange::Entered);
    assert_eq!(server.outbox.len(), 1);
    let p = &server.outbox[0];
    assert_eq!(p.target, P2pPacketTarget::All);
    assert_eq!(p.channel, P2pChannel::GameState);
    assert_eq!(p.send_type, Reliability::Reliable);
    let dict = packet_dict(&p.data);
    assert_eq!(field_str(&dict, "type"), "force_disconnect_player");
    assert_eq!(field_str(&dict, "user_id"), PEER_A.to_string());
    // The session request from the same user is rejected.
    assert!(!server.handle_session_request(PEER_A));
}

#[test]
fn leave_removes_actors_and_roster_entry() {
    let mut server = fresh_server();
    let mut game = fresh_game();
    server.set_lobby_id(400);
    server.users.push(PEER_A);
    game.actor_manager.insert_actor(actor(1, PEER_A, ActorType::Bush));
    game.actor_manager.insert_actor(actor(2, PEER_B, ActorType::Bush));
    server.handle_member_change(&mut game.actor_manager, 400, PEER_A, MemberStateChange::Left);
    assert!(game.actor_manager.get_actor(1).is_none());
    assert!(game.actor_manager.get_actor(2).is_some());
    assert_eq!(server.users, vec![HOST]);
}

#[test]
fn ping_round_trip() {
    let mut server = fresh_server();
    handle_request_ping(&mut server, PEER_A, &"1699999999.25".to_string());
    assert_eq!(server.outbox.len(), 1);
    let p = &server.outbox[0];
    assert_eq!(p.target, P2pPacketTarget::SteamId(PEER_A));
    assert_eq!(p.channel, P2pChannel::GameState);
    assert_eq!(p.send_type, Reliability::Unreliable);
    let dict = packet_dict(&p.data);
    assert_eq!(field_str(&dict, "type"), "send_ping");
    assert_eq!(field_str(&dict, "time"), "1699999999.25");
    assert_eq!(field_str(&dict, "from"), HOST.to_string());
}

#[test]
fn peer_sync_paced() {
    let mut m = PeerManager::new(0);
    let mut outbox: Vec<OutgoingP2pPacketRequest> = Vec::new();
    m.add_peer_need_update(PEER_A);
    m.add_peer_need_update(PEER_A);
    m.add_peer_need_update(PEER_B);
    // Inside the window nothing goes out.
    m.on_update(&mut outbox, HOST, 5000);
    assert_eq!(outbox.len(), 0);
    // Past the window the set drains, once per peer.
    m.on_update(&mut outbox, HOST, 5001);
    assert_eq!(outbox.len(), 2);
    assert_eq!(outbox[0].target, P2pPacketTarget::SteamId(PEER_A));
    assert_eq!(outbox[1].target, P2pPacketTarget::SteamId(PEER_B));
    let dict = packet_dict(&outbox[0].data);
    assert_eq!(field_str(&dict, "type"), "request_actors");
    assert_eq!(field_str(&dict, "user_id"), HOST.to_string());
    // The stamp is reset: another drain within the new window does nothing.
    m.add_peer_need_update(PEER_A);
    m.on_update(&mut outbox, HOST, 10000);
    assert_eq!(outbox.len(), 2);
}

#[test]
fn broadcast_excludes_host() {
    let members = vec![HOST, PEER_A, PEER_B, HOST];
    let targets = broadcast_targets(&members, HOST);
    assert_eq!(targets, vec![PEER_A, PEER_B]);
}

#[test]
fn weblobby_join_protocol() {
    let mut server = fresh_server();
    server.insert_ban_list(PEER_B);
    let req = "$weblobby_join_request".to_string();
    // A banned user is denied.
    let reply = server.handle_lobby_chat(PEER_B, &req).unwrap();
    assert_eq!(reply, format!("$weblobby_request_denied_deny-{}", PEER_B));
    // Anyone else is admitted and announced.
    let reply = server.handle_lobby_chat(PEER_A, &req).unwrap();
    assert_eq!(reply, format!("$weblobby_request_accepted-{}", PEER_A));
    assert!(server.users.contains(&PEER_A));
    let dict = packet_dict(&server.outbox[0].data);
    assert_eq!(field_str(&dict, "type"), "user_joined_weblobby");
    // Other chat lines draw no reply.
    assert!(server.handle_lobby_chat(PEER_A, &"hello".to_string()).is_none());
}

#[test]
fn weblobby_full_lobby_denied() {
    let mut config = Config::default();
    config.max_players = 1;
    let mut server = Server::new(HOST, config);
    let req = "$weblobby_join_request".to_string();
    let reply = server.handle_lobby_chat(PEER_A, &req).unwrap();
    assert_eq!(reply, format!("$weblobby_request_denied_full-{}", PEER_A));
}

#[test]
fn lobby_metadata_entries() {
    let server = fresh_server();
    let entries = server.lobby_data_entries(3, 1700000000);
    let find = |k: &str| {
        entries
            .iter()
            .find(|(key, _)| key == k)
            .map(|(_, v)| v.clone())
            .expect("key present")
    };
    assert_eq!(find("ref"), "webfishing_gamelobby");
    assert_eq!(find("version"), "1.11");
    assert_eq!(find("request"), "false");
    assert_eq!(find("timestamp"), "1700000000");
    assert_eq!(find("type"), "public");
    assert_eq!(find("public"), "true");
    assert_eq!(find("cap"), "12");
    assert_eq!(find("count"), "3");
    assert_eq!(find("server_browser_value"), "0");
    assert_eq!(find("lurefilter"), "dedicated");
    assert_eq!(find("tag_modded"), "1");
    assert_eq!(find("tag_quiet"), "0");
    assert_eq!(entries.len(), 21);
}

#[test]
fn receive_pipeline_end_to_end() {
    // A gzip-compressed instance_actor packet runs the whole inbound path.
    let mut game = fresh_game();
    let mut server = fresh_server();
    let packet = instance_actor_packet(321, "bush", 0);
    let encoded =
        ducky::encode::encode_variant(&VariantValue::Dictionary(packet)).unwrap();
    let mut encoder =
        flate2::read::GzEncoder::new(encoded.as_slice(), flate2::Compression::fast());
    let mut compressed: Vec<u8> = Vec::new();
    std::io::Read::read_to_end(&mut encoder, &mut compressed).unwrap();
    on_receive_packet(&mut server, &mut game, &compressed, PEER_A, &"0".to_string(), 0);
    let a = game.actor_manager.get_actor(321).expect("inserted");
    assert_eq!(a.creator_id, PEER_A);
    assert_eq!(a.actor_type, ActorType::Bush);
    // Garbage is dropped without effect.
    on_receive_packet(&mut server, &mut game, &vec![1, 2, 3], PEER_A, &"0".to_string(), 0);
    assert!(game.actor_manager.get_actor(322).is_none());
}

#[test]
fn spawn_manager_scheduling() {
    let mut m = SpawnManager::new(Vec::new(), 0, 100);
    assert_eq!(m.next_host_spawn, 10000);
    assert_eq!(m.next_metal_spawn, 20000);
    let actors = ActorManager::new();
    // Before any deadline, a tick plans nothing and moves no deadline.
    let plans = m.tick_spawn_plans(&actors, 5000);
    assert_eq!(plans.len(), 0);
    assert_eq!(m.next_host_spawn, 10000);
    // Past the deadlines they reschedule; without spawn points only a
    // raincloud plan (no group needed) can ever appear.
    let plans = m.tick_spawn_plans(&actors, 20000);
    assert_eq!(m.next_host_spawn, 30000);
    assert_eq!(m.next_metal_spawn, 40000);
    for p in plans.iter() {
        assert_eq!(p.actor_type, ActorType::Raincloud);
    }
}

#[test]
fn format_timeout_text() {
    assert_eq!(ducky::command::format_timeout(12), "12s");
    assert_eq!(ducky::command::format_timeout(75), "1m 15s");
    assert_eq!(ducky::command::format_timeout(3700), "1h 1m 40s");
}

#[test]
fn actor_type_names_round_trip() {
    for t in [
        ActorType::Player,
        ActorType::FishSpawn,
        ActorType::Raincloud,
        ActorType::MetalSpawn,
        ActorType::AmbientBird,
        ActorType::VoidPortal,
        ActorType::Toilet,
    ] {
        assert_eq!(ActorType::from_name(t.name().as_str()), t);
    }
    assert_eq!(ActorType::from_name("no_such_kind"), ActorType::Unknown);
    assert!(ActorType::Raincloud.is_create_by_host_only());
    assert!(!ActorType::Bush.is_create_by_host_only());
}

#[test]
fn session_accept_broadcasts_handshake() {
    let mut server = fresh_server();
    assert!(server.handle_session_request(PEER_A));
    assert_eq!(server.outbox.len(), 1);
    let p = &server.outbox[0];
    assert_eq!(p.target, P2pPacketTarget::All);
    let dict = packet_dict(&p.data);
    assert_eq!(field_str(&dict, "type"), "handshake");
    assert_eq!(field_str(&dict, "user_id"), HOST.to_string());
}

#[test]
fn schema_validation() {
    let mut d = Dictionary::new();
    d.insert("actor_id".to_string(), VariantValue::Int(5));
    d.insert(
        "pos".to_string(),
        VariantValue::Vector3(Vector3 { x: 0, y: 0, z: 0 }),
    );
    let schema = vec![
        ("actor_id".to_string(), ducky::variant::VariantType::Int),
        ("pos".to_string(), ducky::variant::VariantType::Vector3),
    ];
    assert!(ducky::packet::validate_dict_field_types(&d, &schema));
    let schema_missing = vec![("rot".to_string(), ducky::variant::VariantType::Vector3)];
    assert!(!ducky::packet::validate_dict_field_types(&d, &schema_missing));
    let schema_wrong = vec![("actor_id".to_string(), ducky::variant::VariantType::String)];
    assert!(!ducky::packet::validate_dict_field_types(&d, &schema_wrong));
}

#[test]
fn decimal_rendering() {
    assert_eq!(
        ducky::text::u64_to_string(u64::MAX),
        u64::MAX.to_string()
    );
    assert_eq!(ducky::text::u64_to_string(0), "0");
    assert_eq!(ducky::time::system_time_since_unix_epoch_seconds().is_empty(), false);
}
