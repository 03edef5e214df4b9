//! The server's own state: host identity, lobby handle, ban list, admitted
//! users, configuration, and the outbound packet queue, together with the
//! lobby-side rules: metadata, the web-lobby join protocol, membership
//! changes, and session admission.

use crate::actor::ActorManager;
use crate::config::Config;
use crate::packet::{build_force_disconnect_player_packet, build_handshake_packet,
    build_message_packet, build_user_joined_weblobby_packet, force_disconnect_packet_view,
    handshake_packet_view, message_packet_view, pushed_packet, send_variant_p2p,
    user_joined_weblobby_packet_view, OutgoingP2pPacketRequest, P2pChannel, P2pPacketTarget,
    Reliability, WIRE_MAX};
use crate::text::{dec_str_of, u64_to_string};
use crate::variant::VariantView;
use vstd::prelude::*;

verus! {

broadcast use vstd::std_specs::vec::axiom_vec_index_decreases, vstd::std_specs::vec::axiom_spec_len;

/// What happened to a lobby member, as the platform reports it.
#[derive(Clone, Copy, PartialEq, Eq, Structural, Debug)]
pub enum MemberStateChange {
    Entered,
    Left,
    Disconnected,
    Kicked,
    Banned,
}

impl MemberStateChange {
    /// Whether the member is gone after this change.
    pub open spec fn is_leave(self) -> bool {
        self == MemberStateChange::Left || self == MemberStateChange::Disconnected || self
            == MemberStateChange::Kicked || self == MemberStateChange::Banned
    }
}

/// The host's server state.
pub struct Server {
    pub host_id: u64,
    pub lobby_id: Option<u64>,
    pub ban_list: Vec<u64>,
    pub users: Vec<u64>,
    pub config: Config,
    pub outbox: Vec<OutgoingP2pPacketRequest>,
}

/// Scans a vector for a value.
pub fn vec_contains_u64(v: &Vec<u64>, x: u64) -> (r: bool)
    ensures
        r == v@.contains(x),
{
    let n = v.len();
    let mut i: usize = 0;
    while i < n
        invariant
            i <= n,
            n == v@.len(),
            forall|j: int| 0 <= j < i ==> v@[j] != x,
        decreases n - i,
    {
        if v[i] == x {
            return true;
        }
        i += 1;
    }
    false
}

impl Server {
    /// A fresh server: the users roster holds the host alone, and the ban
    /// list is seeded from the configuration.
    pub fn new(host_id: u64, config: Config) -> (s: Server)
        ensures
            s.host_id == host_id,
            s.lobby_id is None,
            s.ban_list@ == config.ban_list@,
            s.users@ == seq![host_id],
            s.outbox@ == Seq::<OutgoingP2pPacketRequest>::empty(),
            s.config == config,
    {
        let ban_list = config.ban_list.clone();
        let mut users: Vec<u64> = Vec::new();
        users.push(host_id);
        let outbox: Vec<OutgoingP2pPacketRequest> = Vec::new();
        proof {
            assert(users@ =~= seq![host_id]);
            assert(outbox@ =~= Seq::<OutgoingP2pPacketRequest>::empty());
        }
        Server { host_id, lobby_id: None, ban_list, users, config, outbox }
    }

    /// Records the lobby the platform created.
    pub fn set_lobby_id(&mut self, lobby_id: u64)
        ensures
            *final(self) == (Server { lobby_id: Some(lobby_id), ..*old(self) }),
    {
        self.lobby_id = Some(lobby_id);
    }

    /// Adds a user to the ban list.
    pub fn insert_ban_list(&mut self, steam_id: u64)
        ensures
            *final(self) == (Server { ban_list: final(self).ban_list, ..*old(self) }),
            final(self).ban_list@ == old(self).ban_list@.push(steam_id),
    {
        self.ban_list.push(steam_id);
    }

    /// Whether a user is on the ban list.
    pub fn banned_steam_id(&self, steam_id: u64) -> (r: bool)
        ensures
            r == self.ban_list@.contains(steam_id),
    {
        vec_contains_u64(&self.ban_list, steam_id)
    }

    /// Queues a chat `message` packet for one user on the reliable game-state
    /// channel.
    pub fn send_chat_message(&mut self, steam_id: u64, message: &String)
        ensures
            *final(self) == (Server { outbox: final(self).outbox, ..*old(self) }),
            4 * message@.len() <= WIRE_MAX ==> pushed_packet(
                old(self).outbox@,
                final(self).outbox@,
                VariantView::Dictionary(message_packet_view(message@)),
                P2pPacketTarget::SteamId(steam_id),
                P2pChannel::GameState,
                Reliability::Reliable,
            ),
            pushed_packet(
                old(self).outbox@,
                final(self).outbox@,
                VariantView::Dictionary(message_packet_view(message@)),
                P2pPacketTarget::SteamId(steam_id),
                P2pChannel::GameState,
                Reliability::Reliable,
            ) || final(self).outbox@ == old(self).outbox@,
    {
        let packet = build_message_packet(message);
        send_variant_p2p(
            &mut self.outbox,
            &packet,
            P2pPacketTarget::SteamId(steam_id),
            P2pChannel::GameState,
            Reliability::Reliable,
        );
    }

    /// Decides a platform session request: a banned identity is refused;
    /// anyone else is accepted and greeted with a broadcast `handshake`.
    pub fn handle_session_request(&mut self, remote: u64) -> (accept: bool)
        ensures
            accept == !old(self).ban_list@.contains(remote),
            *final(self) == (Server { outbox: final(self).outbox, ..*old(self) }),
            accept ==> pushed_packet(
                old(self).outbox@,
                final(self).outbox@,
                VariantView::Dictionary(handshake_packet_view(old(self).host_id)),
                P2pPacketTarget::All,
                P2pChannel::GameState,
                Reliability::Reliable,
            ),
            !accept ==> final(self).outbox@ == old(self).outbox@,
    {
        if self.banned_steam_id(remote) {
            return false;
        }
        let packet = build_handshake_packet(self.host_id);
        send_variant_p2p(
            &mut self.outbox,
            &packet,
            P2pPacketTarget::All,
            P2pChannel::GameState,
            Reliability::Reliable,
        );
        true
    }

    /// Applies a lobby membership change: on a leave-class change the
    /// departing user's actors and roster entry go; on entry a banned user
    /// draws a broadcast `force_disconnect_player`.
    pub fn handle_member_change(
        &mut self,
        actors: &mut ActorManager,
        update_lobby: u64,
        user_changed: u64,
        change: MemberStateChange,
    )
        requires
            old(actors).wf(),
        ensures
            final(actors).wf(),
            final(self).host_id == old(self).host_id,
            final(self).lobby_id == old(self).lobby_id,
            final(self).ban_list@ == old(self).ban_list@,
            old(self).lobby_id != Some(update_lobby) ==> *final(self) == *old(self) && *final(actors)
                == *old(actors),
            old(self).lobby_id == Some(update_lobby) && change.is_leave() ==> ({
                &&& final(actors).actors@ == crate::actor::filter_not_creator(
                    old(actors).actors@,
                    user_changed,
                )
                &&& final(self).users@ == crate::actor::ids_without_u64(
                    old(self).users@,
                    user_changed,
                )
                &&& final(self).outbox@ == old(self).outbox@
            }),
            old(self).lobby_id == Some(update_lobby) && change == MemberStateChange::Entered ==> ({
                &&& *final(actors) == *old(actors)
                &&& final(self).users@ == old(self).users@
                &&& (if old(self).ban_list@.contains(user_changed) {
                    pushed_packet(
                        old(self).outbox@,
                        final(self).outbox@,
                        VariantView::Dictionary(force_disconnect_packet_view(user_changed)),
                        P2pPacketTarget::All,
                        P2pChannel::GameState,
                        Reliability::Reliable,
                    )
                } else {
                    final(self).outbox@ == old(self).outbox@
                })
            }),
    {
        let matches_lobby = match self.lobby_id {
            Some(id) => id == update_lobby,
            None => false,
        };
        if !matches_lobby {
            return ;
        }
        match change {
            MemberStateChange::Entered => {
                if self.banned_steam_id(user_changed) {
                    let packet = build_force_disconnect_player_packet(user_changed);
                    send_variant_p2p(
                        &mut self.outbox,
                        &packet,
                        P2pPacketTarget::All,
                        P2pChannel::GameState,
                        Reliability::Reliable,
                    );
                }
            },
            _ => {
                actors.remove_all_actors_by_creator(user_changed);
                self.remove_user(user_changed);
            },
        }
    }

    /// Strikes one user from the roster.
    fn remove_user(&mut self, user: u64)
        ensures
            *final(self) == (Server { users: final(self).users, ..*old(self) }),
            final(self).users@ == crate::actor::ids_without_u64(old(self).users@, user),
    {
        let ghost olds = self.users@;
        let n = self.users.len();
        let mut kept: Vec<u64> = Vec::new();
        let mut j: usize = 0;
        proof {
            assert(olds.skip(0) =~= olds);
        }
        while j < n
            invariant
                j <= n,
                n == olds.len(),
                self.users@ == olds,
                crate::actor::ids_without_u64(olds, user) == kept@ + crate::actor::ids_without_u64(
                    olds.skip(j as int),
                    user,
                ),
            decreases n - j,
        {
            proof {
                assert(olds.skip(j as int)[0] == olds[j as int]);
                assert(olds.skip(j as int).drop_first() =~= olds.skip(j + 1));
            }
            let x = self.users[j];
            if x != user {
                kept.push(x);
                proof {
                    assert(kept@ + crate::actor::ids_without_u64(olds.skip(j + 1), user)
                        =~= kept@.drop_last() + (seq![x] + crate::actor::ids_without_u64(
                        olds.skip(j + 1),
                        user,
                    )));
                }
            }
            j += 1;
        }
        proof {
            assert(olds.skip(n as int) =~= Seq::<u64>::empty());
            assert(kept@ =~= kept@ + crate::actor::ids_without_u64(olds.skip(n as int), user));
        }
        self.users = kept;
    }

    /// Answers a `$weblobby_join_request` lobby chat line: a banned user is
    /// denied, a full lobby turns the user away, and anyone else joins the
    /// roster, is told so, and is announced to the lobby. Returns the chat
    /// reply to post, if the line was a join request at all.
    pub fn handle_lobby_chat(&mut self, sender: u64, text: &String) -> (reply: Option<String>)
        ensures
            final(self).host_id == old(self).host_id,
            final(self).lobby_id == old(self).lobby_id,
            final(self).ban_list@ == old(self).ban_list@,
            text@ != "$weblobby_join_request"@ ==> *final(self) == *old(self) && reply is None,
            text@ == "$weblobby_join_request"@ ==> ({
                if old(self).ban_list@.contains(sender) {
                    &&& reply matches Some(m) && m@ == "$weblobby_request_denied_deny-"@
                        + dec_str_of(sender as nat)
                    &&& final(self).users@ == old(self).users@
                    &&& final(self).outbox@ == old(self).outbox@
                } else if old(self).users@.len() >= old(self).config.max_players {
                    &&& reply matches Some(m) && m@ == "$weblobby_request_denied_full-"@
                        + dec_str_of(sender as nat)
                    &&& final(self).users@ == old(self).users@
                    &&& final(self).outbox@ == old(self).outbox@
                } else {
                    &&& reply matches Some(m) && m@ == "$weblobby_request_accepted-"@ + dec_str_of(
                        sender as nat,
                    )
                    &&& final(self).users@ == old(self).users@.push(sender)
                    &&& pushed_packet(
                        old(self).outbox@,
                        final(self).outbox@,
                        VariantView::Dictionary(user_joined_weblobby_packet_view(sender)),
                        P2pPacketTarget::All,
                        P2pChannel::GameState,
                        Reliability::Reliable,
                    )
                }
            }),
    {
        if !crate::external::str_eq(text.as_str(), "$weblobby_join_request") {
            return None;
        }
        let sender_str = u64_to_string(sender);
        if self.banned_steam_id(sender) {
            let mut m = String::from_str("$weblobby_request_denied_deny-");
            m.append(sender_str.as_str());
            return Some(m);
        }
        if self.users.len() >= self.config.max_players as usize {
            let mut m = String::from_str("$weblobby_request_denied_full-");
            m.append(sender_str.as_str());
            return Some(m);
        }
        self.users.push(sender);
        let packet = build_user_joined_weblobby_packet(sender);
        send_variant_p2p(
            &mut self.outbox,
            &packet,
            P2pPacketTarget::All,
            P2pChannel::GameState,
            Reliability::Reliable,
        );
        let mut m = String::from_str("$weblobby_request_accepted-");
        m.append(sender_str.as_str());
        Some(m)
    }
}

/// The recipients of an `All` send: the current lobby members without the
/// host itself. A broadcast never addresses the host's own identity.
pub fn broadcast_targets(members: &Vec<u64>, host_id: u64) -> (r: Vec<u64>)
    ensures
        r@ == crate::actor::ids_without_u64(members@, host_id),
        forall|i: int| 0 <= i < r@.len() ==> r@[i] != host_id,
{
    let ghost olds = members@;
    let n = members.len();
    let mut kept: Vec<u64> = Vec::new();
    let mut j: usize = 0;
    proof {
        assert(olds.skip(0) =~= olds);
    }
    while j < n
        invariant
            j <= n,
            n == olds.len(),
            members@ == olds,
            crate::actor::ids_without_u64(olds, host_id) == kept@
                + crate::actor::ids_without_u64(olds.skip(j as int), host_id),
            forall|i: int| 0 <= i < kept@.len() ==> kept@[i] != host_id,
        decreases n - j,
    {
        proof {
            assert(olds.skip(j as int)[0] == olds[j as int]);
            assert(olds.skip(j as int).drop_first() =~= olds.skip(j + 1));
        }
        let x = members[j];
        if x != host_id {
            kept.push(x);
            proof {
                assert(kept@ + crate::actor::ids_without_u64(olds.skip(j + 1), host_id)
                    =~= kept@.drop_last() + (seq![x] + crate::actor::ids_without_u64(
                    olds.skip(j + 1),
                    host_id,
                )));
            }
        }
        j += 1;
    }
    proof {
        assert(olds.skip(n as int) =~= Seq::<u64>::empty());
        assert(kept@ =~= kept@ + crate::actor::ids_without_u64(olds.skip(n as int), host_id));
    }
    kept
}

} // verus!

verus! {

/// A flag as lobby metadata: "1" or "0".
pub open spec fn bool01(b: bool) -> Seq<char> {
    if b {
        "1"@
    } else {
        "0"@
    }
}

/// Ids joined with commas, in order.
pub open spec fn csv_of(ids: Seq<u64>) -> Seq<char>
    decreases ids.len(),
{
    if ids.len() == 0 {
        Seq::empty()
    } else {
        dec_str_of(ids[0] as nat) + csv_rest(ids.drop_first())
    }
}

/// The tail of a comma-joined list: a comma before every further id.
pub open spec fn csv_rest(ids: Seq<u64>) -> Seq<char>
    decreases ids.len(),
{
    if ids.len() == 0 {
        Seq::empty()
    } else {
        ","@ + dec_str_of(ids[0] as nat) + csv_rest(ids.drop_first())
    }
}

/// Renders the ban list as comma-separated decimal ids.
pub fn ban_list_csv(ids: &Vec<u64>) -> (s: String)
    ensures
        s@ == csv_of(ids@),
{
    let ghost w = ids@;
    let n = ids.len();
    let mut out = String::new();
    let mut i: usize = 0;
    while i < n
        invariant
            i <= n,
            n == w.len(),
            ids@ == w,
            i == 0 ==> out@ == Seq::<char>::empty(),
            i > 0 ==> csv_of(w) == out@ + csv_rest(w.skip(i as int)),
        decreases n - i,
    {
        proof {
            assert(w.skip(i as int)[0] == w[i as int]);
            assert(w.skip(i as int).drop_first() =~= w.skip(i + 1));
        }
        let piece = u64_to_string(ids[i]);
        if i == 0 {
            out.append(piece.as_str());
            proof {
                assert(csv_of(w) == dec_str_of(w[0] as nat) + csv_rest(w.skip(1)));
                assert(out@ =~= Seq::<char>::empty() + dec_str_of(w[0] as nat));
                assert(csv_of(w) =~= out@ + csv_rest(w.skip(1)));
            }
        } else {
            out.append(",");
            out.append(piece.as_str());
            proof {
                reveal_strlit(",");
                assert(csv_rest(w.skip(i as int)) == ","@ + dec_str_of(w[i as int] as nat)
                    + csv_rest(w.skip(i + 1)));
                assert(csv_of(w) =~= out@ + csv_rest(w.skip(i + 1)));
            }
        }
        i += 1;
    }
    proof {
        if n == 0 {
            assert(csv_of(w) =~= Seq::<char>::empty());
        } else {
            assert(w.skip(n as int) =~= Seq::<u64>::empty());
            assert(csv_rest(w.skip(n as int)) =~= Seq::<char>::empty());
            assert(csv_of(w) =~= out@);
        }
    }
    out
}

/// The key-value pairs pushed as lobby metadata on creation and on every
/// periodic refresh.
pub open spec fn lobby_metadata_view(c: Config, user_count: nat, timestamp: nat) -> Seq<
    (Seq<char>, Seq<char>),
> {
    seq![
        ("lobby_name"@, c.name@),
        ("ref"@, "webfishing_gamelobby"@),
        ("version"@, c.game_version@),
        ("code"@, c.lobby_code@),
        ("tag_talkative"@, bool01(c.tag_talkative)),
        ("tag_quiet"@, bool01(c.tag_quiet)),
        ("tag_grinding"@, bool01(c.tag_grinding)),
        ("tag_chill"@, bool01(c.tag_chill)),
        ("tag_silly"@, bool01(c.tag_silly)),
        ("tag_hardcore"@, bool01(c.tag_hardcore)),
        ("tag_mature"@, bool01(c.tag_mature)),
        ("tag_modded"@, bool01(c.tag_modded)),
        ("request"@, "false"@),
        ("timestamp"@, dec_str_of(timestamp)),
        ("type"@, if c.unlisted { "unlisted"@ } else { "public"@ }),
        ("public"@, if c.unlisted { "false"@ } else { "true"@ }),
        ("banned_players"@, csv_of(c.ban_list@)),
        ("cap"@, dec_str_of(c.max_players as nat)),
        ("count"@, dec_str_of(user_count)),
        ("server_browser_value"@, "0"@),
        ("lurefilter"@, "dedicated"@),
    ]
}

/// The views of rendered key-value pairs.
pub open spec fn pairs_view(v: Vec<(String, String)>) -> Seq<(Seq<char>, Seq<char>)> {
    Seq::new(v@.len(), |i: int| (v@[i].0@, v@[i].1@))
}

impl Server {
    /// Renders the lobby metadata for the given user count and clock, exactly
    /// as the lobby should advertise it.
    pub fn lobby_data_entries(&self, user_count: u64, timestamp_secs: u64) -> (r: Vec<
        (String, String),
    >)
        ensures
            pairs_view(r) == lobby_metadata_view(
                self.config,
                user_count as nat,
                timestamp_secs as nat,
            ),
    {
        let mut out: Vec<(String, String)> = Vec::new();
        out.push((String::from_str("lobby_name"), self.config.name.clone()));
        out.push((String::from_str("ref"), String::from_str("webfishing_gamelobby")));
        out.push((String::from_str("version"), self.config.game_version.clone()));
        out.push((String::from_str("code"), self.config.lobby_code.clone()));
        out.push(
            (
                String::from_str("tag_talkative"),
                Config::get_lobby_data_for_bool(self.config.tag_talkative),
            ),
        );
        out.push(
            (
                String::from_str("tag_quiet"),
                Config::get_lobby_data_for_bool(self.config.tag_quiet),
            ),
        );
        out.push(
            (
                String::from_str("tag_grinding"),
                Config::get_lobby_data_for_bool(self.config.tag_grinding),
            ),
        );
        out.push(
            (
                String::from_str("tag_chill"),
                Config::get_lobby_data_for_bool(self.config.tag_chill),
            ),
        );
        out.push(
            (
                String::from_str("tag_silly"),
                Config::get_lobby_data_for_bool(self.config.tag_silly),
            ),
        );
        out.push(
            (
                String::from_str("tag_hardcore"),
                Config::get_lobby_data_for_bool(self.config.tag_hardcore),
            ),
        );
        out.push(
            (
                String::from_str("tag_mature"),
                Config::get_lobby_data_for_bool(self.config.tag_mature),
            ),
        );
        out.push(
            (
                String::from_str("tag_modded"),
                Config::get_lobby_data_for_bool(self.config.tag_modded),
            ),
        );
        out.push((String::from_str("request"), String::from_str("false")));
        out.push((String::from_str("timestamp"), u64_to_string(timestamp_secs)));
        out.push(
            (
                String::from_str("type"),
                if self.config.unlisted {
                    String::from_str("unlisted")
                } else {
                    String::from_str("public")
                },
            ),
        );
        out.push(
            (
                String::from_str("public"),
                if self.config.unlisted {
                    String::from_str("false")
                } else {
                    String::from_str("true")
                },
            ),
        );
        out.push((String::from_str("banned_players"), ban_list_csv(&self.config.ban_list)));
        out.push((String::from_str("cap"), u64_to_string(self.config.max_players as u64)));
        out.push((String::from_str("count"), u64_to_string(user_count)));
        out.push((String::from_str("server_browser_value"), String::from_str("0")));
        out.push((String::from_str("lurefilter"), String::from_str("dedicated")));
        proof {
            assert(pairs_view(out) =~= lobby_metadata_view(
                self.config,
                user_count as nat,
                timestamp_secs as nat,
            ));
        }
        out
    }
}

} // verus!
