//! Chat-triggered commands: parsing a chat line into a command name, and the
//! two built-in commands, help and rain.

use crate::actor::{count_player, ActorType};
use crate::game::Game;
use crate::packet::{message_packet_view, pushed_packet, P2pChannel, P2pPacketTarget, Reliability};
use crate::server::Server;
use crate::text::{dec_str_of, first_token, u64_to_string};
use crate::variant::{VariantView, Vector3};
use vstd::prelude::*;

verus! {

broadcast use vstd::std_specs::vec::axiom_vec_index_decreases, vstd::std_specs::vec::axiom_spec_len;

/// The binary32 bits of the fixed raincloud altitude.
pub const RAINCLOUD_ALTITUDE_BITS: u32 = 0x42280000;

/// The chat text with every client name marker struck out.
pub open spec fn strip_marker(s: Seq<char>) -> Seq<char>
    decreases s.len(),
{
    if s.len() == 0 {
        Seq::empty()
    } else if s.len() >= 4 && s.take(4) == "%u: "@ {
        strip_marker(s.skip(4))
    } else {
        seq![s[0]] + strip_marker(s.drop_first())
    }
}

/// Strikes every client name marker from a chat line.
pub fn strip_marker_chars(v: &Vec<char>) -> (r: Vec<char>)
    ensures
        r@ == strip_marker(v@),
{
    proof {
        reveal_strlit("%u: ");
    }
    let ghost w = v@;
    let n = v.len();
    let mut out: Vec<char> = Vec::new();
    let mut i: usize = 0;
    proof {
        assert(w.skip(0) =~= w);
    }
    while i < n
        invariant
            i <= n,
            n == w.len(),
            v@ == w,
            strip_marker(w) == out@ + strip_marker(w.skip(i as int)),
        decreases n - i,
    {
        let ghost tail = w.skip(i as int);
        proof {
            reveal_strlit("%u: ");
            assert(tail[0] == w[i as int]);
            assert(tail.drop_first() =~= w.skip(i + 1));
        }
        if n - i >= 4 && v[i] == '%' && v[i + 1] == 'u' && v[i + 2] == ':' && v[i + 3] == ' ' {
            proof {
                assert(tail.take(4) =~= "%u: "@) by {
                    assert("%u: "@.len() == 4);
                    assert("%u: "@[0] == '%' && "%u: "@[1] == 'u' && "%u: "@[2] == ':' && "%u: "@[3]
                        == ' ');
                    assert(tail.take(4)[0] == w[i as int]);
                    assert(tail.take(4)[1] == w[i + 1]);
                    assert(tail.take(4)[2] == w[i + 2]);
                    assert(tail.take(4)[3] == w[i + 3]);
                }
                assert(tail.skip(4) =~= w.skip(i + 4));
            }
            i += 4;
        } else {
            proof {
                if tail.len() >= 4 {
                    assert(tail.take(4)[0] == w[i as int] && tail.take(4)[1] == w[i + 1]
                        && tail.take(4)[2] == w[i + 2] && tail.take(4)[3] == w[i + 3]);
                    assert("%u: "@.len() == 4);
                    assert("%u: "@[0] == '%' && "%u: "@[1] == 'u' && "%u: "@[2] == ':'
                        && "%u: "@[3] == ' ');
                    if tail.take(4) == "%u: "@ {
                        assert(w[i as int] == '%' && w[i + 1] == 'u' && w[i + 2] == ':' && w[i + 3]
                            == ' ');
                    }
                }
            }
            out.push(v[i]);
            proof {
                assert(out@ + strip_marker(w.skip(i + 1)) =~= out@.drop_last() + (seq![
                    w[i as int],
                ] + strip_marker(w.skip(i + 1))));
            }
            i += 1;
        }
    }
    proof {
        assert(w.skip(n as int) =~= Seq::<char>::empty());
        assert(out@ =~= out@ + strip_marker(w.skip(n as int)));
    }
    out
}

/// The command a chat line invokes: after striking name markers, a line
/// opening with an exclamation mark names the command up to the first
/// separator.
pub open spec fn command_of(text: Seq<char>) -> Option<Seq<char>> {
    let stripped = strip_marker(text);
    if stripped.len() > 0 && stripped[0] == '!' {
        Some(first_token(stripped).skip(1))
    } else {
        None
    }
}

/// Parses the command a chat line invokes, if any.
pub fn parse_command(text: &String) -> (r: Option<Vec<char>>)
    ensures
        match r {
            Some(c) => command_of(text@) == Some(c@),
            None => command_of(text@) is None,
        },
{
    let chars = crate::text::str_chars(text.as_str());
    let stripped = strip_marker_chars(&chars);
    if stripped.len() == 0 {
        return None;
    }
    if stripped[0] != '!' {
        return None;
    }
    let token = crate::text::take_first_token(&stripped, 0);
    proof {
        assert(stripped@.skip(0) =~= stripped@);
        assert(!crate::text::is_space(stripped@[0]));
        assert(first_token(stripped@) == seq![stripped@[0]] + first_token(
            stripped@.drop_first(),
        ));
        assert(first_token(stripped@).len() > 0);
    }
    let mut cmd: Vec<char> = Vec::new();
    let mut i: usize = 1;
    let m = token.len();
    proof {
        assert(cmd@ =~= token@.skip(1).take(0));
    }
    while i < m
        invariant
            1 <= i <= m,
            m == token@.len(),
            cmd@ == token@.skip(1).take(i - 1),
        decreases m - i,
    {
        cmd.push(token[i]);
        proof {
            assert(cmd@ =~= token@.skip(1).take(i as int));
        }
        i += 1;
    }
    proof {
        assert(cmd@ =~= token@.skip(1));
    }
    Some(cmd)
}

/// The slot-occupied refusal a rain command draws: with a recorded deadline,
/// the remaining wait is spelled out; without one, the generic wait line.
pub open spec fn rain_wait_text(sm: crate::spawn::SpawnManager, now_ms: u64) -> Seq<char> {
    match sm.user_deadline_spec(ActorType::Raincloud) {
        Some(deadline) => "Someone already spawned a rain cloud. Please wait "@ + timeout_text(
            (((if deadline > now_ms {
                deadline - now_ms
            } else {
                0
            }) / 1000) as nat),
        ) + "."@,
        None => "Someone already spawned a rain cloud. Please wait for it to despawn."@,
    }
}

/// One chat `message` packet to the sender joined the queue; nothing else of
/// the server moved.
pub open spec fn chat_reply_effect(pre_s: Server, post_s: Server, sender: u64, text: Seq<char>) -> bool {
    &&& post_s == (Server { outbox: post_s.outbox, ..pre_s })
    &&& pushed_packet(
        pre_s.outbox@,
        post_s.outbox@,
        VariantView::Dictionary(message_packet_view(text)),
        P2pPacketTarget::SteamId(sender),
        P2pChannel::GameState,
        Reliability::Reliable,
    )
}

/// What the rain command does, case by case: no Player actor for the sender,
/// the sender over quota, the single user raincloud slot occupied — each an
/// exact refusal line and no world change — or the spawn attempt itself,
/// reported as "Spawned rain cloud.", which creates the raincloud over the
/// sender's player at the fixed altitude unless the drawn id collides.
pub open spec fn rain_command_effect(
    pre_s: Server,
    post_s: Server,
    pre_g: Game,
    post_g: Game,
    sender: u64,
    now_ms: u64,
) -> bool {
    let am = pre_g.actor_manager;
    let sm = pre_g.spawn_manager;
    &&& post_s == (Server { outbox: post_s.outbox, ..pre_s })
    &&& post_g.peer_manager == pre_g.peer_manager
    &&& if count_player(am.actors@, sender) == 0 {
        &&& post_g.actor_manager == am
        &&& post_g.spawn_manager == sm
        &&& chat_reply_effect(pre_s, post_s, sender, "Failed. No Player character found."@)
    } else if !crate::actor::can_create(am.actors@, sender, true, ActorType::Raincloud) {
        &&& post_g.actor_manager == am
        &&& post_g.spawn_manager == sm
        &&& chat_reply_effect(pre_s, post_s, sender, "Failed. You have too many props!"@)
    } else if sm.user_ids(ActorType::Raincloud).len() > 0 {
        &&& post_g.actor_manager == am
        &&& post_g.spawn_manager == sm
        &&& chat_reply_effect(pre_s, post_s, sender, rain_wait_text(sm, now_ms))
    } else {
        &&& post_s.outbox@.len() >= pre_s.outbox@.len() + 1
        &&& post_s.outbox@.take(pre_s.outbox@.len() as int) == pre_s.outbox@
        &&& post_s.outbox@.last().data@ == crate::wire::enc(
            VariantView::Dictionary(message_packet_view("Spawned rain cloud."@)),
        )
        &&& post_s.outbox@.last().target == P2pPacketTarget::SteamId(sender)
        &&& post_s.outbox@.last().channel == P2pChannel::GameState
        &&& post_s.outbox@.last().send_type == Reliability::Reliable
        &&& post_g.spawn_manager.game_spawns@ == sm.game_spawns@
        &&& ((exists|a: crate::actor::Actor|
            {
                &&& post_g.actor_manager.actors@ == am.actors@.push(a)
                &&& a.actor_type == ActorType::Raincloud
                &&& a.creator_id == pre_s.host_id
                &&& a.zone@ == "main_zone"@
                &&& a.position.y == RAINCLOUD_ALTITUDE_BITS
                &&& post_g.spawn_manager.user_ids(ActorType::Raincloud) == seq![a.id]
                &&& post_g.spawn_manager.spawn_timeouts@ == sm.spawn_timeouts@.push(
                    (a.id, (now_ms + 541666) as u64),
                )
            }) || (post_g.actor_manager.actors@ == am.actors@
            && post_g.spawn_manager.user_spawns@ == sm.user_spawns@
            && post_g.spawn_manager.spawn_timeouts@ == sm.spawn_timeouts@))
    }
}

/// Sends the command list to the asker.
pub fn handle_help_command(server: &mut Server, sender: u64)
    ensures
        *final(server) == (Server { outbox: final(server).outbox, ..*old(server) }),
        pushed_packet(
            old(server).outbox@,
            final(server).outbox@,
            VariantView::Dictionary(message_packet_view("Available commands: !help, !rain"@)),
            P2pPacketTarget::SteamId(sender),
            P2pChannel::GameState,
            Reliability::Reliable,
        ),
{
    proof {
        reveal_strlit("Available commands: !help, !rain");
    }
    let m = String::from_str("Available commands: !help, !rain");
    server.send_chat_message(sender, &m);
}

/// Runs the rain command, exactly as `rain_command_effect` states: each
/// refusal draws its exact line and leaves the world alone; otherwise the
/// raincloud is spawned over the sender's player at the fixed altitude and
/// reported, unless the drawn id collides.
pub fn handle_rain_command(server: &mut Server, game: &mut Game, sender: u64, now_ms: u64)
    requires
        old(game).wf(),
        now_ms < 0xf000000000000000,
    ensures
        final(game).wf(),
        rain_command_effect(
            *old(server),
            *final(server),
            *old(game),
            *final(game),
            sender,
            now_ms,
        ),
{
    proof {
        reveal_strlit("Failed. No Player character found.");
        reveal_strlit("Failed. You have too many props!");
        reveal_strlit("Someone already spawned a rain cloud. Please wait ");
        reveal_strlit("Someone already spawned a rain cloud. Please wait for it to despawn.");
        reveal_strlit("Spawned rain cloud.");
        reveal_strlit("main_zone");
        reveal_strlit(".");
        assert("Failed. No Player character found."@.len() == 34);
        assert("Failed. You have too many props!"@.len() == 32);
        assert("Someone already spawned a rain cloud. Please wait "@.len() == 50);
        assert("Someone already spawned a rain cloud. Please wait for it to despawn."@.len()
            == 68);
        assert("Spawned rain cloud."@.len() == 19);
        assert("."@.len() == 1);
    }
    let player_position = match game.actor_manager.get_player_actor(sender) {
        Some(a) => {
            proof {
                let k = choose|k: int|
                    0 <= k < game.actor_manager.actors@.len() && *a == (
                    #[trigger] game.actor_manager.actors@[k]) && a.creator_id == sender
                        && a.actor_type == ActorType::Player;
                crate::actor::lemma_count_player_pos(game.actor_manager.actors@, sender, k);
            }
            a.position
        },
        None => {
            let m = String::from_str("Failed. No Player character found.");
            server.send_chat_message(sender, &m);
            return ;
        },
    };
    if !game.actor_manager.user_can_create_actor(sender, true, ActorType::Raincloud) {
        let m = String::from_str("Failed. You have too many props!");
        server.send_chat_message(sender, &m);
        return ;
    }
    if !game.spawn_manager.can_spawn_user_actor(ActorType::Raincloud) {
        match game.spawn_manager.next_user_spawn_deadline(ActorType::Raincloud) {
            Some(deadline) => {
                let mut m = String::from_str("Someone already spawned a rain cloud. Please wait ");
                let left = if deadline > now_ms {
                    deadline - now_ms
                } else {
                    0
                };
                m.append(format_timeout(left / 1000).as_str());
                m.append(".");
                proof {
                    lemma_timeout_text_len(((left / 1000) as u64) as nat);
                    assert(m@ =~= rain_wait_text(game.spawn_manager, now_ms));
                    assert(4 * m@.len() <= crate::packet::WIRE_MAX);
                }
                server.send_chat_message(sender, &m);
            },
            None => {
                let m = String::from_str(
                    "Someone already spawned a rain cloud. Please wait for it to despawn.",
                );
                proof {
                    assert(m@ =~= rain_wait_text(game.spawn_manager, now_ms));
                }
                server.send_chat_message(sender, &m);
            },
        }
        return ;
    }
    let position = Vector3 {
        x: player_position.x,
        y: RAINCLOUD_ALTITUDE_BITS,
        z: player_position.z,
    };
    game.spawn_manager.spawn_user_raincloud(
        &mut game.actor_manager,
        &mut server.outbox,
        server.host_id,
        "main_zone",
        position,
        now_ms,
    );
    let m = String::from_str("Spawned rain cloud.");
    server.send_chat_message(sender, &m);
    proof {
        assert(server.outbox@.take(old(server).outbox@.len() as int) =~= old(server).outbox@);
    }
}

/// A rendered wait line never outgrows the wire format.
proof fn lemma_timeout_text_len(secs: nat)
    requires
        secs < 0x10000000000000000,
    ensures
        timeout_text(secs).len() <= 70,
{
    reveal_strlit("s");
    reveal_strlit("m ");
    reveal_strlit("h ");
    assert("s"@.len() == 1 && "m "@.len() == 2 && "h "@.len() == 2);
    crate::packet::lemma_dec_len(secs);
    assert(secs / 60 < 0x10000000000000000 && secs % 60 < 0x10000000000000000) by (nonlinear_arith)
        requires
            secs < 0x10000000000000000,
    ;
    assert(secs / 3600 < 0x10000000000000000 && (secs % 3600) / 60 < 0x10000000000000000)
        by (nonlinear_arith)
        requires
            secs < 0x10000000000000000,
    ;
    crate::packet::lemma_dec_len(secs / 60);
    crate::packet::lemma_dec_len(secs % 60);
    crate::packet::lemma_dec_len(secs / 3600);
    crate::packet::lemma_dec_len((secs % 3600) / 60);
}

/// A duration in whole seconds, as chat text.
pub open spec fn timeout_text(secs: nat) -> Seq<char> {
    if secs < 60 {
        dec_str_of(secs) + "s"@
    } else if secs < 3600 {
        dec_str_of(secs / 60) + "m "@ + dec_str_of(secs % 60) + "s"@
    } else {
        dec_str_of(secs / 3600) + "h "@ + dec_str_of((secs % 3600) / 60) + "m "@ + dec_str_of(
            secs % 60,
        ) + "s"@
    }
}

/// Renders a duration in whole seconds for chat.
pub fn format_timeout(secs: u64) -> (s: String)
    ensures
        s@ == timeout_text(secs as nat),
{
    let mut out = String::new();
    if secs < 60 {
        out.append(u64_to_string(secs).as_str());
        out.append("s");
        proof {
            assert(out@ =~= timeout_text(secs as nat));
        }
    } else if secs < 3600 {
        out.append(u64_to_string(secs / 60).as_str());
        out.append("m ");
        out.append(u64_to_string(secs % 60).as_str());
        out.append("s");
        proof {
            assert(out@ =~= timeout_text(secs as nat));
        }
    } else {
        out.append(u64_to_string(secs / 3600).as_str());
        out.append("h ");
        out.append(u64_to_string((secs % 3600) / 60).as_str());
        out.append("m ");
        out.append(u64_to_string(secs % 60).as_str());
        out.append("s");
        proof {
            assert(out@ =~= timeout_text(secs as nat));
        }
    }
    out
}

/// What a parsed command does: help (or commands) sends the command list,
/// rain runs the rain command, and anything else changes nothing — the
/// command set is closed.
pub open spec fn command_effect(
    pre_s: Server,
    post_s: Server,
    pre_g: Game,
    post_g: Game,
    sender: u64,
    now_ms: u64,
    cmd: Seq<char>,
) -> bool {
    if cmd == "help"@ || cmd == "commands"@ {
        &&& post_g == pre_g
        &&& chat_reply_effect(pre_s, post_s, sender, "Available commands: !help, !rain"@)
    } else if cmd == "rain"@ {
        rain_command_effect(pre_s, post_s, pre_g, post_g, sender, now_ms)
    } else {
        post_s == pre_s && post_g == pre_g
    }
}

/// Dispatches a parsed chat command to its handler, exactly as
/// `command_effect` states.
pub fn dispatch_command(
    server: &mut Server,
    game: &mut Game,
    sender: u64,
    command: &Vec<char>,
    now_ms: u64,
)
    requires
        old(game).wf(),
        now_ms < 0xf000000000000000,
    ensures
        final(game).wf(),
        command_effect(
            *old(server),
            *final(server),
            *old(game),
            *final(game),
            sender,
            now_ms,
            command@,
        ),
{
    if crate::text::chars_eq_str(command, "help") || crate::text::chars_eq_str(
        command,
        "commands",
    ) {
        handle_help_command(server, sender);
    } else if crate::text::chars_eq_str(command, "rain") {
        handle_rain_command(server, game, sender, now_ms);
    }
}

/// What a chat `message` packet does: a line invoking a known command runs
/// it as `command_effect` states; a line invoking none, or a packet without
/// a string `message` field, changes nothing.
pub open spec fn message_effect(
    pre_s: Server,
    post_s: Server,
    pre_g: Game,
    post_g: Game,
    sender: u64,
    now_ms: u64,
    pkt: crate::variant::DictView,
) -> bool {
    match crate::variant::dict_get_v(pkt, "message"@) {
        Some(VariantView::String(text)) => (match command_of(text) {
            Some(cmd) => command_effect(pre_s, post_s, pre_g, post_g, sender, now_ms, cmd),
            None => post_s == pre_s && post_g == pre_g,
        }),
        _ => post_s == pre_s && post_g == pre_g,
    }
}

/// Applies a chat `message` packet as `message_effect` states.
pub fn handle_message(
    server: &mut Server,
    game: &mut Game,
    sender: u64,
    packet: &crate::variant::Dictionary,
    now_ms: u64,
)
    requires
        old(game).wf(),
        now_ms < 0xf000000000000000,
    ensures
        final(game).wf(),
        message_effect(
            *old(server),
            *final(server),
            *old(game),
            *final(game),
            sender,
            now_ms,
            packet@,
        ),
{
    proof {
        reveal_strlit("message");
    }
    let text = match packet.get("message") {
        Some(v) => match v.as_str() {
            Some(s) => s.clone(),
            None => {
                return ;
            },
        },
        None => {
            return ;
        },
    };
    match parse_command(&text) {
        Some(command) => {
            dispatch_command(server, game, sender, &command, now_ms);
        },
        None => {},
    }
}

} // verus!
