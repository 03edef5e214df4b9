//! Outbound packet plumbing: the logical channels, the addressing and
//! reliability of a send, the per-message-kind packet builders, and the
//! registry operations that broadcast as they mutate.

use crate::actor::{can_create, filter_creator, Actor, ActorManager};
use crate::encode::encode_variant;
use crate::variant::{dict_get_v, DictView, Dictionary, VariantType, VariantValue, VariantView,
    Vector3};
use crate::wire::{enc, encodable};
pub use crate::wire::WIRE_MAX;
use vstd::prelude::*;
use vstd::utf8::{encode_scalar, encode_utf8};

verus! {

broadcast use vstd::std_specs::vec::axiom_vec_index_decreases, vstd::string::axiom_str_literal_len, vstd::string::axiom_str_literal_get_char;

/// The seven logical streams the platform carries for this game.
#[derive(Clone, Copy, PartialEq, Eq, Structural, Debug)]
pub enum P2pChannel {
    ActorUpdate,
    ActorAction,
    GameState,
    Chalk,
    Guitar,
    ActorAnimation,
    Speech,
}

impl P2pChannel {
    /// The wire number of each channel.
    pub open spec fn number_spec(self) -> u8 {
        match self {
            P2pChannel::ActorUpdate => 0,
            P2pChannel::ActorAction => 1,
            P2pChannel::GameState => 2,
            P2pChannel::Chalk => 3,
            P2pChannel::Guitar => 4,
            P2pChannel::ActorAnimation => 5,
            P2pChannel::Speech => 6,
        }
    }

    /// The wire number of this channel.
    pub fn number(&self) -> (n: u8)
        ensures
            n == self.number_spec(),
    {
        match self {
            P2pChannel::ActorUpdate => 0,
            P2pChannel::ActorAction => 1,
            P2pChannel::GameState => 2,
            P2pChannel::Chalk => 3,
            P2pChannel::Guitar => 4,
            P2pChannel::ActorAnimation => 5,
            P2pChannel::Speech => 6,
        }
    }

    /// All seven channels, in wire order.
    pub fn all() -> (v: Vec<P2pChannel>)
        ensures
            v@.len() == 7,
            forall|i: int| 0 <= i < 7 ==> (#[trigger] v@[i]).number_spec() == i,
    {
        let mut v: Vec<P2pChannel> = Vec::new();
        v.push(P2pChannel::ActorUpdate);
        v.push(P2pChannel::ActorAction);
        v.push(P2pChannel::GameState);
        v.push(P2pChannel::Chalk);
        v.push(P2pChannel::Guitar);
        v.push(P2pChannel::ActorAnimation);
        v.push(P2pChannel::Speech);
        v
    }
}

/// Where a packet is addressed: one user, or every lobby member but the host.
#[derive(Clone, Copy, PartialEq, Eq, Structural, Debug)]
pub enum P2pPacketTarget {
    SteamId(u64),
    All,
}

/// The delivery class a packet asks of the transport.
#[derive(Clone, Copy, PartialEq, Eq, Structural, Debug)]
pub enum Reliability {
    Reliable,
    Unreliable,
    UnreliableNoDelay,
}

/// One packet waiting in the outbound queue: encoded (uncompressed) body,
/// addressing, channel and delivery class.
#[derive(Debug)]
pub struct OutgoingP2pPacketRequest {
    pub data: Vec<u8>,
    pub target: P2pPacketTarget,
    pub channel: P2pChannel,
    pub send_type: Reliability,
}

/// The outbound queue grew by exactly one packet carrying the encoding of
/// `body`, so addressed and classed.
pub open spec fn pushed_packet(
    pre: Seq<OutgoingP2pPacketRequest>,
    post: Seq<OutgoingP2pPacketRequest>,
    body: VariantView,
    target: P2pPacketTarget,
    channel: P2pChannel,
    rel: Reliability,
) -> bool {
    &&& post.len() == pre.len() + 1
    &&& post.take(pre.len() as int) == pre
    &&& post.last().data@ == enc(body)
    &&& post.last().target == target
    &&& post.last().channel == channel
    &&& post.last().send_type == rel
}

/// Encodes a value and queues it; a value the format cannot carry is dropped,
/// leaving the queue as it was.
pub fn send_variant_p2p(
    outbox: &mut Vec<OutgoingP2pPacketRequest>,
    variant: &VariantValue,
    target: P2pPacketTarget,
    channel: P2pChannel,
    send_type: Reliability,
)
    ensures
        encodable(variant@) ==> pushed_packet(
            old(outbox)@,
            final(outbox)@,
            variant@,
            target,
            channel,
            send_type,
        ),
        !encodable(variant@) ==> final(outbox)@ == old(outbox)@,
{
    match encode_variant(variant) {
        Ok(data) => {
            outbox.push(OutgoingP2pPacketRequest { data, target, channel, send_type });
            proof {
                assert(final(outbox)@.take(old(outbox)@.len() as int) =~= old(outbox)@);
            }
        },
        Err(_) => {},
    }
}

/// A UTF-8 encoding takes at most four bytes per character.
pub proof fn lemma_encode_utf8_len(s: Seq<char>)
    ensures
        encode_utf8(s).len() <= 4 * s.len(),
    decreases s.len(),
{
    if s.len() > 0 {
        lemma_encode_utf8_len(s.drop_first());
        assert(encode_scalar(s[0] as u32).len() <= 4);
    }
}

/// A string of at most a quarter of the wire maximum always fits.
pub proof fn lemma_short_string_encodable(s: Seq<char>)
    requires
        4 * s.len() <= WIRE_MAX,
    ensures
        encode_utf8(s).len() <= WIRE_MAX,
{
    lemma_encode_utf8_len(s);
}

} // verus!

verus! {

/// The body of a `message` packet: a line of chat shown to the recipient.
pub open spec fn message_packet_view(message: Seq<char>) -> DictView {
    seq![
        ("type"@, VariantView::String("message"@)),
        ("message"@, VariantView::String(message)),
        ("color"@, VariantView::String("ffffff"@)),
        ("local"@, VariantView::Bool(false)),
        ("position"@, VariantView::Vector3(Vector3 { x: 0, y: 0, z: 0 })),
        ("zone"@, VariantView::String(""@)),
        ("zone_owner"@, VariantView::Int(-1i64)),
    ]
}

/// Records a field under a key the dictionary does not hold yet.
pub fn dict_set_fresh(d: &mut Dictionary, key: &str, value: VariantValue)
    requires
        forall|j: int| 0 <= j < old(d)@.len() ==> (#[trigger] old(d)@[j]).0 != key@,
    ensures
        final(d)@ == old(d)@.push((key@, value@)),
{
    proof {
        crate::variant::lemma_get_missing(d@, key@);
        crate::variant::lemma_put_fresh(d@, key@, value@);
    }
    d.insert(String::from_str(key), value);
}

/// Builds a `message` packet carrying the given chat text.
pub fn build_message_packet(message: &String) -> (r: VariantValue)
    ensures
        r@ == VariantView::Dictionary(message_packet_view(message@)),
        4 * message@.len() <= WIRE_MAX ==> encodable(r@),
{
    proof {
        reveal_strlit("type");
        reveal_strlit("message");
        reveal_strlit("color");
        reveal_strlit("ffffff");
        reveal_strlit("local");
        reveal_strlit("position");
        reveal_strlit("zone");
        reveal_strlit("zone_owner");
        reveal_strlit("");
    }
    proof {
        assert("type"@.len() == 4 && "message"@.len() == 7 && "color"@.len() == 5 && "local"@.len()
            == 5 && "position"@.len() == 8 && "zone"@.len() == 4 && "zone_owner"@.len() == 10);
        assert("type"@ != "zone"@) by {
            assert("type"@[0] != "zone"@[0]);
        }
        assert("color"@ != "local"@) by {
            assert("color"@[0] != "local"@[0]);
        }
    }
    let mut d = Dictionary::new();
    proof {
        assert(d@ =~= Seq::<(Seq<char>, VariantView)>::empty());
    }
    dict_set_fresh(&mut d, "type", VariantValue::String(String::from_str("message")));
    dict_set_fresh(&mut d, "message", VariantValue::String(message.clone()));
    dict_set_fresh(&mut d, "color", VariantValue::String(String::from_str("ffffff")));
    dict_set_fresh(&mut d, "local", VariantValue::Bool(false));
    dict_set_fresh(&mut d, "position", VariantValue::Vector3(Vector3 { x: 0, y: 0, z: 0 }));
    dict_set_fresh(&mut d, "zone", VariantValue::String(String::from_str("")));
    dict_set_fresh(&mut d, "zone_owner", VariantValue::Int(-1));
    proof {
        assert(d@ =~= message_packet_view(message@));
        if 4 * message@.len() <= WIRE_MAX {
            let es = message_packet_view(message@);
            lemma_short_string_encodable("type"@);
            lemma_short_string_encodable("message"@);
            lemma_short_string_encodable("color"@);
            lemma_short_string_encodable("ffffff"@);
            lemma_short_string_encodable("local"@);
            lemma_short_string_encodable("position"@);
            lemma_short_string_encodable("zone"@);
            lemma_short_string_encodable("zone_owner"@);
            lemma_short_string_encodable(""@);
            lemma_short_string_encodable(message@);
            assert forall|i: int| 0 <= i < es.len() implies encode_utf8(
                (#[trigger] es[i]).0,
            ).len() <= WIRE_MAX && encodable(es[i].1) by {
                if i == 1 {
                    assert(encodable(VariantView::String(message@)));
                }
            }
            assert(encodable(VariantView::Dictionary(es)));
        }
    }
    VariantValue::Dictionary(d)
}

} // verus!

verus! {

/// A decimal rendering of a u64 is 1 to 20 characters.
pub proof fn lemma_dec_len(n: nat)
    requires
        n < 0x10000000000000000,
    ensures
        1 <= crate::text::dec_str_of(n).len() <= 20,
{
    if n >= 10 {
        reveal_with_fuel(pow10, 21);
        assert(pow10(19) == 10000000000000000000);
        assert(n / 10 < pow10(19)) by (nonlinear_arith)
            requires
                n < 0x10000000000000000 && pow10(19) == 10000000000000000000,
        ;
        lemma_dec_len_digits(n / 10, 19);
    }
}

/// A number below 10^k renders in at most k digits (k up to 19).
proof fn lemma_dec_len_digits(n: nat, k: nat)
    requires
        1 <= k <= 19,
        n < pow10(k),
    ensures
        crate::text::dec_str_of(n).len() <= k,
    decreases k,
{
    reveal_with_fuel(pow10, 3);
    if n >= 10 && k > 1 {
        assert(n / 10 < pow10((k - 1) as nat)) by (nonlinear_arith)
            requires
                n < pow10(k) && pow10(k) == 10 * pow10((k - 1) as nat),
        ;
        lemma_dec_len_digits(n / 10, (k - 1) as nat)
    }
}

/// Powers of ten.
pub open spec fn pow10(k: nat) -> nat
    decreases k,
{
    if k == 0 {
        1
    } else {
        10 * pow10((k - 1) as nat)
    }
}

/// The body of a `handshake` packet: the host confirms a session.
pub open spec fn handshake_packet_view(user_id: u64) -> DictView {
    seq![
        ("type"@, VariantView::String("handshake"@)),
        ("user_id"@, VariantView::String(crate::text::dec_str_of(user_id as nat))),
    ]
}

/// Builds a `handshake` packet for the given user.
pub fn build_handshake_packet(user_id: u64) -> (r: VariantValue)
    ensures
        r@ == VariantView::Dictionary(handshake_packet_view(user_id)),
        encodable(r@),
{
    proof {
        reveal_strlit("type");
        reveal_strlit("user_id");
        reveal_strlit("handshake");
        assert("type"@.len() == 4 && "user_id"@.len() == 7);
        assert("handshake"@.len() == 9);
    }
    let mut d = Dictionary::new();
    proof {
        assert(d@ =~= Seq::<(Seq<char>, VariantView)>::empty());
    }
    dict_set_fresh(&mut d, "type", VariantValue::String(String::from_str("handshake")));
    dict_set_fresh(
        &mut d,
        "user_id",
        VariantValue::String(crate::text::u64_to_string(user_id)),
    );
    proof {
        assert(d@ =~= handshake_packet_view(user_id));
        lemma_two_field_id_packet_encodable(d@, "handshake"@, user_id);
    }
    VariantValue::Dictionary(d)
}

/// A two-entry dictionary of short strings fits the wire format.
proof fn lemma_two_field_id_packet_encodable(es: DictView, kind: Seq<char>, user_id: u64)
    requires
        es.len() == 2,
        es[0] == ("type"@, VariantView::String(kind)),
        es[1] == ("user_id"@, VariantView::String(crate::text::dec_str_of(user_id as nat))),
        kind.len() <= 100,
        "type"@ != "user_id"@,
    ensures
        encodable(VariantView::Dictionary(es)),
{
    reveal_strlit("type");
    reveal_strlit("user_id");
    lemma_short_string_encodable("type"@);
    lemma_short_string_encodable("user_id"@);
    lemma_short_string_encodable(kind);
    lemma_dec_len(user_id as nat);
    lemma_short_string_encodable(crate::text::dec_str_of(user_id as nat));
    assert forall|i: int| 0 <= i < es.len() implies encode_utf8((#[trigger] es[i]).0).len()
        <= WIRE_MAX && encodable(es[i].1) by {
        if i == 0 {
        } else {
        }
    }
    assert(crate::variant::dict_keys_unique(es));
}

/// The body of a `force_disconnect_player` packet: clients must shun a user.
pub open spec fn force_disconnect_packet_view(user_id: u64) -> DictView {
    seq![
        ("type"@, VariantView::String("force_disconnect_player"@)),
        ("user_id"@, VariantView::String(crate::text::dec_str_of(user_id as nat))),
    ]
}

/// Builds a `force_disconnect_player` packet for the given user.
pub fn build_force_disconnect_player_packet(user_id: u64) -> (r: VariantValue)
    ensures
        r@ == VariantView::Dictionary(force_disconnect_packet_view(user_id)),
        encodable(r@),
{
    proof {
        reveal_strlit("type");
        reveal_strlit("user_id");
        reveal_strlit("force_disconnect_player");
        assert("type"@.len() == 4 && "user_id"@.len() == 7);
        assert("force_disconnect_player"@.len() == 23);
    }
    let mut d = Dictionary::new();
    proof {
        assert(d@ =~= Seq::<(Seq<char>, VariantView)>::empty());
    }
    dict_set_fresh(
        &mut d,
        "type",
        VariantValue::String(String::from_str("force_disconnect_player")),
    );
    dict_set_fresh(
        &mut d,
        "user_id",
        VariantValue::String(crate::text::u64_to_string(user_id)),
    );
    proof {
        assert(d@ =~= force_disconnect_packet_view(user_id));
        lemma_two_field_id_packet_encodable(d@, "force_disconnect_player"@, user_id);
    }
    VariantValue::Dictionary(d)
}

/// The body of a `user_joined_weblobby` packet: a web peer was admitted.
pub open spec fn user_joined_weblobby_packet_view(user_id: u64) -> DictView {
    seq![
        ("type"@, VariantView::String("user_joined_weblobby"@)),
        ("user_id"@, VariantView::String(crate::text::dec_str_of(user_id as nat))),
    ]
}

/// Builds a `user_joined_weblobby` packet for the given user.
pub fn build_user_joined_weblobby_packet(user_id: u64) -> (r: VariantValue)
    ensures
        r@ == VariantView::Dictionary(user_joined_weblobby_packet_view(user_id)),
        encodable(r@),
{
    proof {
        reveal_strlit("type");
        reveal_strlit("user_id");
        reveal_strlit("user_joined_weblobby");
        assert("type"@.len() == 4 && "user_id"@.len() == 7);
        assert("user_joined_weblobby"@.len() == 20);
    }
    let mut d = Dictionary::new();
    proof {
        assert(d@ =~= Seq::<(Seq<char>, VariantView)>::empty());
    }
    dict_set_fresh(
        &mut d,
        "type",
        VariantValue::String(String::from_str("user_joined_weblobby")),
    );
    dict_set_fresh(
        &mut d,
        "user_id",
        VariantValue::String(crate::text::u64_to_string(user_id)),
    );
    proof {
        assert(d@ =~= user_joined_weblobby_packet_view(user_id));
        lemma_two_field_id_packet_encodable(d@, "user_joined_weblobby"@, user_id);
    }
    VariantValue::Dictionary(d)
}

/// The body of a `request_actors` packet: the host asks a peer to list its
/// actors.
pub open spec fn request_actors_packet_view(user_id: u64) -> DictView {
    seq![
        ("type"@, VariantView::String("request_actors"@)),
        ("user_id"@, VariantView::String(crate::text::dec_str_of(user_id as nat))),
    ]
}

/// Builds a `request_actors` packet carrying the host's own id.
pub fn build_actor_request_packet(user_id: u64) -> (r: VariantValue)
    ensures
        r@ == VariantView::Dictionary(request_actors_packet_view(user_id)),
        encodable(r@),
{
    proof {
        reveal_strlit("type");
        reveal_strlit("user_id");
        reveal_strlit("request_actors");
        assert("type"@.len() == 4 && "user_id"@.len() == 7);
        assert("request_actors"@.len() == 14);
    }
    let mut d = Dictionary::new();
    proof {
        assert(d@ =~= Seq::<(Seq<char>, VariantView)>::empty());
    }
    dict_set_fresh(&mut d, "type", VariantValue::String(String::from_str("request_actors")));
    dict_set_fresh(
        &mut d,
        "user_id",
        VariantValue::String(crate::text::u64_to_string(user_id)),
    );
    proof {
        assert(d@ =~= request_actors_packet_view(user_id));
        lemma_two_field_id_packet_encodable(d@, "request_actors"@, user_id);
    }
    VariantValue::Dictionary(d)
}

} // verus!

verus! {

/// The `params` dictionary describing an actor in an `instance_actor` packet.
pub open spec fn actor_params_view(a: Actor) -> DictView {
    seq![
        ("actor_id"@, VariantView::Int(a.id)),
        ("creator_id"@, VariantView::Int(a.creator_id as i64)),
        ("actor_type"@, VariantView::String(a.actor_type.name_spec())),
        ("zone"@, VariantView::String(a.zone@)),
        ("zone_owner"@, VariantView::Int(a.zone_owner)),
        ("at"@, VariantView::Vector3(a.position)),
        ("rot"@, VariantView::Vector3(a.rotation)),
    ]
}

impl Actor {
    /// The `params` dictionary used when instancing this actor on peers.
    pub fn clone_to_variant_dict(&self) -> (r: VariantValue)
        ensures
            r@ == VariantView::Dictionary(actor_params_view(*self)),
            4 * self.zone@.len() <= WIRE_MAX ==> encodable(r@),
    {
        proof {
            reveal_strlit("actor_id");
            reveal_strlit("creator_id");
            reveal_strlit("actor_type");
            reveal_strlit("zone");
            reveal_strlit("zone_owner");
            reveal_strlit("at");
            reveal_strlit("rot");
            assert("actor_id"@.len() == 8 && "creator_id"@.len() == 10 && "actor_type"@.len() == 10
                && "zone"@.len() == 4 && "zone_owner"@.len() == 10 && "at"@.len() == 2
                && "rot"@.len() == 3);
            assert("creator_id"@ != "actor_type"@) by {
                assert("creator_id"@[0] != "actor_type"@[0]);
            }
            assert("creator_id"@ != "zone_owner"@) by {
                assert("creator_id"@[0] != "zone_owner"@[0]);
            }
            assert("actor_type"@ != "zone_owner"@) by {
                assert("actor_type"@[0] != "zone_owner"@[0]);
            }
        }
        let mut d = Dictionary::new();
        proof {
            assert(d@ =~= Seq::<(Seq<char>, VariantView)>::empty());
        }
        dict_set_fresh(&mut d, "actor_id", VariantValue::Int(self.id));
        dict_set_fresh(
            &mut d,
            "creator_id",
            VariantValue::Int(#[verifier::truncate] (self.creator_id as i64)),
        );
        dict_set_fresh(&mut d, "actor_type", VariantValue::String(self.actor_type.name()));
        dict_set_fresh(&mut d, "zone", VariantValue::String(self.zone.clone()));
        dict_set_fresh(&mut d, "zone_owner", VariantValue::Int(self.zone_owner));
        dict_set_fresh(&mut d, "at", VariantValue::Vector3(self.position));
        dict_set_fresh(&mut d, "rot", VariantValue::Vector3(self.rotation));
        proof {
            assert(d@ =~= actor_params_view(*self));
            if 4 * self.zone@.len() <= WIRE_MAX {
                let es = actor_params_view(*self);
                lemma_short_string_encodable("actor_id"@);
                lemma_short_string_encodable("creator_id"@);
                lemma_short_string_encodable("actor_type"@);
                lemma_short_string_encodable("zone"@);
                lemma_short_string_encodable("zone_owner"@);
                lemma_short_string_encodable("at"@);
                lemma_short_string_encodable("rot"@);
                lemma_name_short(self.actor_type);
                lemma_short_string_encodable(self.actor_type.name_spec());
                lemma_short_string_encodable(self.zone@);
                assert forall|i: int| 0 <= i < es.len() implies encode_utf8(
                    (#[trigger] es[i]).0,
                ).len() <= WIRE_MAX && encodable(es[i].1) by {}
                assert(encodable(VariantView::Dictionary(es)));
            }
        }
        VariantValue::Dictionary(d)
    }

    /// The thin {id, owner, type} record used in `actor_request_send` lists.
    pub fn clone_to_replication_variant_dict(&self) -> (r: VariantValue)
        ensures
            r@ == VariantView::Dictionary(actor_replication_view(*self)),
            encodable(r@),
    {
        proof {
            reveal_strlit("id");
            reveal_strlit("owner");
            reveal_strlit("type");
            assert("id"@.len() == 2 && "owner"@.len() == 5 && "type"@.len() == 4);
        }
        let mut d = Dictionary::new();
        proof {
            assert(d@ =~= Seq::<(Seq<char>, VariantView)>::empty());
        }
        dict_set_fresh(&mut d, "id", VariantValue::Int(self.id));
        dict_set_fresh(
            &mut d,
            "owner",
            VariantValue::Int(#[verifier::truncate] (self.creator_id as i64)),
        );
        dict_set_fresh(&mut d, "type", VariantValue::String(self.actor_type.name()));
        proof {
            assert(d@ =~= actor_replication_view(*self));
            let es = actor_replication_view(*self);
            lemma_short_string_encodable("id"@);
            lemma_short_string_encodable("owner"@);
            lemma_short_string_encodable("type"@);
            lemma_name_short(self.actor_type);
            lemma_short_string_encodable(self.actor_type.name_spec());
            assert forall|i: int| 0 <= i < es.len() implies encode_utf8(
                (#[trigger] es[i]).0,
            ).len() <= WIRE_MAX && encodable(es[i].1) by {}
            assert(encodable(VariantView::Dictionary(es)));
        }
        VariantValue::Dictionary(d)
    }
}

/// The thin replication record of an actor: id, owner, kind.
pub open spec fn actor_replication_view(a: Actor) -> DictView {
    seq![
        ("id"@, VariantView::Int(a.id)),
        ("owner"@, VariantView::Int(a.creator_id as i64)),
        ("type"@, VariantView::String(a.actor_type.name_spec())),
    ]
}

/// Every actor kind's protocol name is short.
pub proof fn lemma_name_short(t: crate::actor::ActorType)
    ensures
        t.name_spec().len() <= 20,
{
    reveal_strlit("unknown");
    reveal_strlit("player");
    reveal_strlit("fish_spawn");
    reveal_strlit("fish_spawn_alien");
    reveal_strlit("raincloud");
    reveal_strlit("raincloud_tiny");
    reveal_strlit("aqua_fish");
    reveal_strlit("metal_spawn");
    reveal_strlit("ambient_bird");
    reveal_strlit("void_portal");
    reveal_strlit("picnic");
    reveal_strlit("canvas");
    reveal_strlit("bush");
    reveal_strlit("rock");
    reveal_strlit("fish_trap");
    reveal_strlit("fish_trap_ocean");
    reveal_strlit("island_tiny");
    reveal_strlit("island_med");
    reveal_strlit("island_big");
    reveal_strlit("boombox");
    reveal_strlit("well");
    reveal_strlit("campfire");
    reveal_strlit("chair");
    reveal_strlit("table");
    reveal_strlit("therapist_chair");
    reveal_strlit("toilet");
    reveal_strlit("whoopie");
    reveal_strlit("beer");
    reveal_strlit("greenscreen");
    reveal_strlit("portable_bait");
}

/// The body of an `instance_actor` packet: the host asks peers to create an
/// actor.
pub open spec fn instance_actor_packet_view(a: Actor) -> DictView {
    seq![
        ("type"@, VariantView::String("instance_actor"@)),
        ("params"@, VariantView::Dictionary(actor_params_view(a))),
    ]
}

/// Builds an `instance_actor` packet describing the actor.
pub fn build_instance_actor_packet(actor: &Actor) -> (r: VariantValue)
    ensures
        r@ == VariantView::Dictionary(instance_actor_packet_view(*actor)),
        4 * actor.zone@.len() <= WIRE_MAX ==> encodable(r@),
{
    proof {
        reveal_strlit("type");
        reveal_strlit("params");
        reveal_strlit("instance_actor");
        assert("type"@.len() == 4 && "params"@.len() == 6 && "instance_actor"@.len() == 14);
    }
    let params = actor.clone_to_variant_dict();
    let mut d = Dictionary::new();
    proof {
        assert(d@ =~= Seq::<(Seq<char>, VariantView)>::empty());
    }
    dict_set_fresh(&mut d, "type", VariantValue::String(String::from_str("instance_actor")));
    dict_set_fresh(&mut d, "params", params);
    proof {
        assert(d@ =~= instance_actor_packet_view(*actor));
        if 4 * actor.zone@.len() <= WIRE_MAX {
            let es = instance_actor_packet_view(*actor);
            lemma_short_string_encodable("type"@);
            lemma_short_string_encodable("params"@);
            lemma_short_string_encodable("instance_actor"@);
            assert forall|i: int| 0 <= i < es.len() implies encode_utf8(
                (#[trigger] es[i]).0,
            ).len() <= WIRE_MAX && encodable(es[i].1) by {}
            assert(encodable(VariantView::Dictionary(es)));
        }
    }
    VariantValue::Dictionary(d)
}

/// The body of an `actor_update` packet: the pose of one actor.
pub open spec fn actor_update_packet_view(a: Actor) -> DictView {
    seq![
        ("type"@, VariantView::String("actor_update"@)),
        ("actor_id"@, VariantView::Int(a.id)),
        ("pos"@, VariantView::Vector3(a.position)),
        ("rot"@, VariantView::Vector3(a.rotation)),
    ]
}

/// Builds an `actor_update` packet carrying the actor's pose.
pub fn build_actor_update_packet(actor: &Actor) -> (r: VariantValue)
    ensures
        r@ == VariantView::Dictionary(actor_update_packet_view(*actor)),
        encodable(r@),
{
    proof {
        reveal_strlit("type");
        reveal_strlit("actor_id");
        reveal_strlit("pos");
        reveal_strlit("rot");
        reveal_strlit("actor_update");
        assert("type"@.len() == 4 && "actor_id"@.len() == 8 && "pos"@.len() == 3 && "rot"@.len()
            == 3 && "actor_update"@.len() == 12);
        assert("pos"@ != "rot"@) by {
            assert("pos"@[0] != "rot"@[0]);
        }
    }
    let mut d = Dictionary::new();
    proof {
        assert(d@ =~= Seq::<(Seq<char>, VariantView)>::empty());
    }
    dict_set_fresh(&mut d, "type", VariantValue::String(String::from_str("actor_update")));
    dict_set_fresh(&mut d, "actor_id", VariantValue::Int(actor.id));
    dict_set_fresh(&mut d, "pos", VariantValue::Vector3(actor.position));
    dict_set_fresh(&mut d, "rot", VariantValue::Vector3(actor.rotation));
    proof {
        assert(d@ =~= actor_update_packet_view(*actor));
        let es = actor_update_packet_view(*actor);
        lemma_short_string_encodable("type"@);
        lemma_short_string_encodable("actor_id"@);
        lemma_short_string_encodable("pos"@);
        lemma_short_string_encodable("rot"@);
        lemma_short_string_encodable("actor_update"@);
        assert forall|i: int| 0 <= i < es.len() implies encode_utf8((#[trigger] es[i]).0).len()
            <= WIRE_MAX && encodable(es[i].1) by {}
        assert(encodable(VariantView::Dictionary(es)));
    }
    VariantValue::Dictionary(d)
}

/// The body of an `actor_action` packet: a named action on one actor.
pub open spec fn actor_action_packet_view(
    actor_id: i64,
    action: Seq<char>,
    params: Seq<VariantView>,
) -> DictView {
    seq![
        ("type"@, VariantView::String("actor_action"@)),
        ("actor_id"@, VariantView::Int(actor_id)),
        ("action"@, VariantView::String(action)),
        ("params"@, VariantView::Array(params)),
    ]
}

/// Builds an `actor_action` packet for the actor.
pub fn build_actor_action_packet(actor: &Actor, action: &str, params: Vec<VariantValue>) -> (r:
    VariantValue)
    ensures
        r@ == VariantView::Dictionary(
            actor_action_packet_view(actor.id, action@, crate::variant::elems_view(params)),
        ),
        4 * action@.len() <= WIRE_MAX && encodable(
            VariantView::Array(crate::variant::elems_view(params)),
        ) ==> encodable(r@),
{
    proof {
        reveal_strlit("type");
        reveal_strlit("actor_id");
        reveal_strlit("action");
        reveal_strlit("params");
        reveal_strlit("actor_action");
        assert("type"@.len() == 4 && "actor_id"@.len() == 8 && "action"@.len() == 6
            && "params"@.len() == 6 && "actor_action"@.len() == 12);
        assert("action"@ != "params"@) by {
            assert("action"@[0] != "params"@[0]);
        }
    }
    let ghost pv = crate::variant::elems_view(params);
    let mut d = Dictionary::new();
    proof {
        assert(d@ =~= Seq::<(Seq<char>, VariantView)>::empty());
    }
    dict_set_fresh(&mut d, "type", VariantValue::String(String::from_str("actor_action")));
    dict_set_fresh(&mut d, "actor_id", VariantValue::Int(actor.id));
    dict_set_fresh(&mut d, "action", VariantValue::String(String::from_str(action)));
    dict_set_fresh(&mut d, "params", VariantValue::Array(params));
    proof {
        assert(d@ =~= actor_action_packet_view(actor.id, action@, pv));
        if 4 * action@.len() <= WIRE_MAX && encodable(VariantView::Array(pv)) {
            let es = actor_action_packet_view(actor.id, action@, pv);
            lemma_short_string_encodable("type"@);
            lemma_short_string_encodable("actor_id"@);
            lemma_short_string_encodable("action"@);
            lemma_short_string_encodable("params"@);
            lemma_short_string_encodable("actor_action"@);
            lemma_short_string_encodable(action@);
            assert forall|i: int| 0 <= i < es.len() implies encode_utf8(
                (#[trigger] es[i]).0,
            ).len() <= WIRE_MAX && encodable(es[i].1) by {}
            assert(encodable(VariantView::Dictionary(es)));
        }
    }
    VariantValue::Dictionary(d)
}

/// The replication records of a sequence of actors, in order.
pub open spec fn replication_list_view(s: Seq<Actor>) -> Seq<VariantView> {
    Seq::new(s.len(), |i: int| VariantView::Dictionary(actor_replication_view(s[i])))
}

/// The body of an `actor_request_send` packet listing the given actors.
pub open spec fn actor_request_send_packet_view(s: Seq<Actor>) -> DictView {
    seq![
        ("type"@, VariantView::String("actor_request_send"@)),
        ("list"@, VariantView::Array(replication_list_view(s))),
    ]
}

/// Every zone among the actors is short enough for the wire format.
pub open spec fn zones_short(s: Seq<Actor>) -> bool {
    forall|k: int| 0 <= k < s.len() ==> 4 * (#[trigger] s[k]).zone@.len() <= WIRE_MAX
}

/// From `base` on, the queue holds an `instance_actor` then an
/// `actor_update` packet for each listed actor in order, all addressed to
/// one user on the reliable game-state channel.
pub open spec fn sync_packets_from(
    post: Seq<OutgoingP2pPacketRequest>,
    base: int,
    owned: Seq<Actor>,
    target: u64,
) -> bool {
    forall|k: int|
        0 <= k < owned.len() ==> {
            let a = #[trigger] owned[k];
            &&& post[base + 2 * k].data@ == enc(
                VariantView::Dictionary(instance_actor_packet_view(a)),
            )
            &&& post[base + 2 * k].target == P2pPacketTarget::SteamId(target)
            &&& post[base + 2 * k].channel == P2pChannel::GameState
            &&& post[base + 2 * k].send_type == Reliability::Reliable
            &&& post[base + 2 * k + 1].data@ == enc(
                VariantView::Dictionary(actor_update_packet_view(a)),
            )
            &&& post[base + 2 * k + 1].target == P2pPacketTarget::SteamId(target)
            &&& post[base + 2 * k + 1].channel == P2pChannel::GameState
            &&& post[base + 2 * k + 1].send_type == Reliability::Reliable
        }
}

/// The body of a `send_ping` packet: the host's clock and identity.
pub open spec fn send_ping_packet_view(time: Seq<char>, from: Seq<char>) -> DictView {
    seq![
        ("type"@, VariantView::String("send_ping"@)),
        ("time"@, VariantView::String(time)),
        ("from"@, VariantView::String(from)),
    ]
}

/// Builds a `send_ping` packet carrying the given clock text and sender.
pub fn build_send_ping_packet(time: &String, from: &String) -> (r: VariantValue)
    ensures
        r@ == VariantView::Dictionary(send_ping_packet_view(time@, from@)),
        4 * time@.len() <= WIRE_MAX && 4 * from@.len() <= WIRE_MAX ==> encodable(r@),
{
    proof {
        reveal_strlit("type");
        reveal_strlit("time");
        reveal_strlit("from");
        reveal_strlit("send_ping");
        assert("type"@.len() == 4 && "time"@.len() == 4 && "from"@.len() == 4
            && "send_ping"@.len() == 9);
        assert("type"@ != "time"@) by {
            assert("type"@[1] != "time"@[1]);
        }
        assert("type"@ != "from"@) by {
            assert("type"@[0] != "from"@[0]);
        }
        assert("time"@ != "from"@) by {
            assert("time"@[0] != "from"@[0]);
        }
    }
    let mut d = Dictionary::new();
    proof {
        assert(d@ =~= Seq::<(Seq<char>, VariantView)>::empty());
    }
    dict_set_fresh(&mut d, "type", VariantValue::String(String::from_str("send_ping")));
    dict_set_fresh(&mut d, "time", VariantValue::String(time.clone()));
    dict_set_fresh(&mut d, "from", VariantValue::String(from.clone()));
    proof {
        assert(d@ =~= send_ping_packet_view(time@, from@));
        if 4 * time@.len() <= WIRE_MAX && 4 * from@.len() <= WIRE_MAX {
            let es = send_ping_packet_view(time@, from@);
            lemma_short_string_encodable("type"@);
            lemma_short_string_encodable("time"@);
            lemma_short_string_encodable("from"@);
            lemma_short_string_encodable("send_ping"@);
            lemma_short_string_encodable(time@);
            lemma_short_string_encodable(from@);
            assert forall|i: int| 0 <= i < es.len() implies encode_utf8(
                (#[trigger] es[i]).0,
            ).len() <= WIRE_MAX && encodable(es[i].1) by {}
            assert(encodable(VariantView::Dictionary(es)));
        }
    }
    VariantValue::Dictionary(d)
}

} // verus!

verus! {

/// Whether a dictionary carries every required field with the required kind.
pub open spec fn schema_ok(d: DictView, m: Seq<(Seq<char>, VariantType)>) -> bool {
    forall|i: int|
        0 <= i < m.len() ==> match dict_get_v(d, (#[trigger] m[i]).0) {
            Some(v) => v.kind() == m[i].1,
            None => false,
        }
}

/// The schema entries as mathematics: key views paired with expected kinds.
pub open spec fn schema_view(m: Vec<(String, VariantType)>) -> Seq<(Seq<char>, VariantType)> {
    Seq::new(m@.len(), |i: int| (m@[i].0@, m@[i].1))
}

/// Checks that the dictionary holds the fields and kinds the schema names.
pub fn validate_dict_field_types(
    dictionary: &Dictionary,
    types_map: &Vec<(String, VariantType)>,
) -> (r: bool)
    ensures
        r == schema_ok(dictionary@, schema_view(*types_map)),
{
    let ghost m = schema_view(*types_map);
    proof {
        assert(m.len() == types_map@.len());
    }
    let n = types_map.len();
    let mut i: usize = 0;
    while i < n
        invariant
            i <= n,
            n == types_map@.len(),
            m == schema_view(*types_map),
            m.len() == n,
            forall|j: int|
                0 <= j < i ==> match dict_get_v(dictionary@, (#[trigger] m[j]).0) {
                    Some(v) => v.kind() == m[j].1,
                    None => false,
                },
        decreases n - i,
    {
        proof {
            assert(m[i as int] == (types_map@[i as int].0@, types_map@[i as int].1));
        }
        match dictionary.get(types_map[i].0.as_str()) {
            Some(value) => {
                if !value.is_type_of(types_map[i].1) {
                    return false;
                }
            },
            None => {
                return false;
            },
        }
        i += 1;
    }
    true
}

impl ActorManager {
    /// Admission-checked insert of a host-owned actor, broadcast to peers as
    /// an `instance_actor` then an `actor_update` (without the second, a
    /// freshly instanced actor tends to sit at the world origin on peers).
    /// Fails on a quota violation or a colliding id, changing nothing.
    pub fn spawn_host_actor(
        &mut self,
        outbox: &mut Vec<OutgoingP2pPacketRequest>,
        creator_id: u64,
        actor: Actor,
    ) -> (r: bool)
        requires
            old(self).wf(),
            actor.creator_id == creator_id,
        ensures
            final(self).wf(),
            r == (can_create(old(self).actors@, creator_id, true, actor.actor_type) && !old(
                self,
            ).has_actor(actor.id)),
            r ==> final(self).actors@ == old(self).actors@.push(actor),
            !r ==> final(self).actors@ == old(self).actors@ && final(outbox)@ == old(outbox)@
                && final(self).actor_ids_by_creator@ == old(self).actor_ids_by_creator@,
            r ==> final(outbox)@.take(old(outbox)@.len() as int) == old(outbox)@ && old(
                outbox,
            )@.len() <= final(outbox)@.len() <= old(outbox)@.len() + 2,
            r && 4 * actor.zone@.len() <= WIRE_MAX ==> ({
                let pre = old(outbox)@;
                let post = final(outbox)@;
                &&& post.len() == pre.len() + 2
                &&& post.take(pre.len() as int) == pre
                &&& post[pre.len() as int].data@ == enc(
                    VariantView::Dictionary(instance_actor_packet_view(actor)),
                )
                &&& post[pre.len() as int].target == P2pPacketTarget::All
                &&& post[pre.len() as int].channel == P2pChannel::GameState
                &&& post[pre.len() as int].send_type == Reliability::Reliable
                &&& post.last().data@ == enc(
                    VariantView::Dictionary(actor_update_packet_view(actor)),
                )
                &&& post.last().target == P2pPacketTarget::All
                &&& post.last().channel == P2pChannel::ActorUpdate
                &&& post.last().send_type == Reliability::Reliable
            }),
    {
        if !self.user_can_create_actor(creator_id, true, actor.actor_type) {
            return false;
        }
        match self.get_actor(actor.id) {
            Some(_) => {
                return false;
            },
            None => {},
        }
        let instance_packet = build_instance_actor_packet(&actor);
        let update_packet = build_actor_update_packet(&actor);
        self.insert_actor(actor);
        let ghost mid0 = outbox@;
        send_variant_p2p(
            outbox,
            &instance_packet,
            P2pPacketTarget::All,
            P2pChannel::GameState,
            Reliability::Reliable,
        );
        let ghost mid1 = outbox@;
        send_variant_p2p(
            outbox,
            &update_packet,
            P2pPacketTarget::All,
            P2pChannel::ActorUpdate,
            Reliability::Reliable,
        );
        proof {
            if 4 * actor.zone@.len() <= WIRE_MAX {
                assert(outbox@.take(mid0.len() as int) =~= mid0);
            }
        }
        true
    }

    /// Broadcasts an `actor_action("queue_free")` for the actor and strikes
    /// it from the registry. Fails without a record, changing nothing.
    pub fn despawn_host_actor(
        &mut self,
        outbox: &mut Vec<OutgoingP2pPacketRequest>,
        actor_id: i64,
    ) -> (r: bool)
        requires
            old(self).wf(),
        ensures
            final(self).wf(),
            r == old(self).has_actor(actor_id),
            r ==> ({
                let k = old(self).actor_index(actor_id);
                let c = old(self).actor_of(actor_id).creator_id;
                &&& final(self).actors@ == old(self).actors@.remove(k)
                &&& final(self).creator_ids(c) == crate::actor::ids_without(
                    old(self).creator_ids(c),
                    actor_id,
                )
                &&& forall|c2: u64|
                    c2 != c ==> final(self).creator_ids(c2) == old(self).creator_ids(c2)
                &&& pushed_packet(
                    old(outbox)@,
                    final(outbox)@,
                    VariantView::Dictionary(
                        actor_action_packet_view(actor_id, "queue_free"@, Seq::empty()),
                    ),
                    P2pPacketTarget::All,
                    P2pChannel::ActorAction,
                    Reliability::Reliable,
                )
            }),
            !r ==> final(self).actors@ == old(self).actors@ && final(outbox)@ == old(outbox)@
                && final(self).actor_ids_by_creator@ == old(self).actor_ids_by_creator@,
    {
        let empty_params: Vec<VariantValue> = Vec::new();
        proof {
            assert(crate::variant::elems_view(empty_params) =~= Seq::<VariantView>::empty());
        }
        let packet = match self.get_actor(actor_id) {
            None => {
                return false;
            },
            Some(a) => build_actor_action_packet(a, "queue_free", empty_params),
        };
        proof {
            reveal_strlit("queue_free");
            assert("queue_free"@.len() == 10);
            assert(encodable(VariantView::Array(Seq::<VariantView>::empty())));
        }
        send_variant_p2p(
            outbox,
            &packet,
            P2pPacketTarget::All,
            P2pChannel::ActorAction,
            Reliability::Reliable,
        );
        self.remove_actor(actor_id);
        true
    }

    /// Broadcasts a fresh `actor_update` for every actor the host owns.
    pub fn on_update(&self, outbox: &mut Vec<OutgoingP2pPacketRequest>, host_id: u64)
        ensures
            final(outbox)@.len() == old(outbox)@.len() + filter_creator(self.actors@, host_id).len(),
            final(outbox)@.take(old(outbox)@.len() as int) == old(outbox)@,
            forall|j: int|
                old(outbox)@.len() <= j < final(outbox)@.len() ==> ({
                    let a = filter_creator(self.actors@, host_id)[j - old(outbox)@.len()];
                    &&& (#[trigger] final(outbox)@[j]).data@ == enc(
                        VariantView::Dictionary(actor_update_packet_view(a)),
                    )
                    &&& final(outbox)@[j].target == P2pPacketTarget::All
                    &&& final(outbox)@[j].channel == P2pChannel::ActorUpdate
                    &&& final(outbox)@[j].send_type == Reliability::Unreliable
                }),
    {
        let owned = self.get_actors_by_creator(host_id);
        let ghost fc = filter_creator(self.actors@, host_id);
        let ghost pre = outbox@;
        let n = owned.len();
        let mut i: usize = 0;
        while i < n
            invariant
                i <= n,
                n == fc.len(),
                owned@ == fc,
                outbox@.len() == pre.len() + i,
                outbox@.take(pre.len() as int) == pre,
                forall|j: int|
                    pre.len() <= j < outbox@.len() ==> ({
                        let a = fc[j - pre.len()];
                        &&& (#[trigger] outbox@[j]).data@ == enc(
                            VariantView::Dictionary(actor_update_packet_view(a)),
                        )
                        &&& outbox@[j].target == P2pPacketTarget::All
                        &&& outbox@[j].channel == P2pChannel::ActorUpdate
                        &&& outbox@[j].send_type == Reliability::Unreliable
                    }),
            decreases n - i,
        {
            let packet = build_actor_update_packet(&owned[i]);
            proof {
                assert(packet@ == VariantView::Dictionary(actor_update_packet_view(fc[i as int])));
            }
            let ghost before = outbox@;
            send_variant_p2p(
                outbox,
                &packet,
                P2pPacketTarget::All,
                P2pChannel::ActorUpdate,
                Reliability::Unreliable,
            );
            proof {
                assert(outbox@.take(pre.len() as int) =~= pre);
                assert forall|j: int|
                    pre.len() <= j < outbox@.len() implies ({
                        let a = fc[j - pre.len()];
                        &&& (#[trigger] outbox@[j]).data@ == enc(
                            VariantView::Dictionary(actor_update_packet_view(a)),
                        )
                        &&& outbox@[j].target == P2pPacketTarget::All
                        &&& outbox@[j].channel == P2pChannel::ActorUpdate
                        &&& outbox@[j].send_type == Reliability::Unreliable
                    }) by {
                    if j < before.len() {
                        assert(outbox@.take(before.len() as int)[j] == outbox@[j]);
                        assert(outbox@[j] == before[j]);
                        assert(before[j].data@ == enc(
                            VariantView::Dictionary(
                                actor_update_packet_view(fc[j - pre.len()]),
                            ),
                        ));
                    } else {
                        assert(outbox@[j] == outbox@.last());
                        assert(outbox@.last().data@ == enc(
                            VariantView::Dictionary(actor_update_packet_view(fc[i as int])),
                        ));
                    }
                }
            }
            i += 1;
        }
    }

    /// Sends the new peer an `instance_actor` and an `actor_update` for every
    /// actor the host owns, so a joining player sees the world. When every
    /// owned actor's zone fits the wire format (always, for host spawns),
    /// exactly two packets per actor go out, in order.
    pub fn sync_all_owned_by(
        &self,
        outbox: &mut Vec<OutgoingP2pPacketRequest>,
        host_id: u64,
        target: u64,
    )
        ensures
            final(outbox)@.len() >= old(outbox)@.len(),
            final(outbox)@.take(old(outbox)@.len() as int) == old(outbox)@,
            forall|j: int|
                old(outbox)@.len() <= j < final(outbox)@.len() ==> ({
                    &&& (#[trigger] final(outbox)@[j]).target == P2pPacketTarget::SteamId(target)
                    &&& final(outbox)@[j].channel == P2pChannel::GameState
                    &&& final(outbox)@[j].send_type == Reliability::Reliable
                }),
            zones_short(filter_creator(self.actors@, host_id)) ==> ({
                let owned = filter_creator(self.actors@, host_id);
                &&& final(outbox)@.len() == old(outbox)@.len() + 2 * owned.len()
                &&& sync_packets_from(final(outbox)@, old(outbox)@.len() as int, owned, target)
            }),
    {
        let owned = self.get_actors_by_creator(host_id);
        let ghost fc = filter_creator(self.actors@, host_id);
        let ghost pre = outbox@;
        let n = owned.len();
        let mut i: usize = 0;
        while i < n
            invariant
                i <= n,
                n == owned@.len(),
                owned@ == fc,
                outbox@.len() >= pre.len(),
                outbox@.take(pre.len() as int) == pre,
                forall|j: int|
                    pre.len() <= j < outbox@.len() ==> ({
                        &&& (#[trigger] outbox@[j]).target == P2pPacketTarget::SteamId(target)
                        &&& outbox@[j].channel == P2pChannel::GameState
                        &&& outbox@[j].send_type == Reliability::Reliable
                    }),
                zones_short(fc) ==> outbox@.len() == pre.len() + 2 * i && sync_packets_from(
                    outbox@,
                    pre.len() as int,
                    fc.take(i as int),
                    target,
                ),
            decreases n - i,
        {
            let instance_packet = build_instance_actor_packet(&owned[i]);
            let update_packet = build_actor_update_packet(&owned[i]);
            let ghost b0 = outbox@;
            send_variant_p2p(
                outbox,
                &instance_packet,
                P2pPacketTarget::SteamId(target),
                P2pChannel::GameState,
                Reliability::Reliable,
            );
            let ghost b1 = outbox@;
            send_variant_p2p(
                outbox,
                &update_packet,
                P2pPacketTarget::SteamId(target),
                P2pChannel::GameState,
                Reliability::Reliable,
            );
            proof {
                assert forall|j: int|
                    pre.len() <= j < outbox@.len() implies (#[trigger] outbox@[j]).target
                    == P2pPacketTarget::SteamId(target) && outbox@[j].channel
                    == P2pChannel::GameState && outbox@[j].send_type == Reliability::Reliable by {
                    if j < b1.len() {
                        if outbox@.len() > b1.len() {
                            assert(outbox@.take(b1.len() as int)[j] == outbox@[j]);
                        }
                        assert(outbox@[j] == b1[j]);
                        if j < b0.len() {
                            if b1.len() > b0.len() {
                                assert(b1.take(b0.len() as int)[j] == b1[j]);
                            }
                            assert(b1[j] == b0[j]);
                        } else {
                            assert(b1[j] == b1.last());
                        }
                    } else {
                        assert(outbox@[j] == outbox@.last());
                    }
                }
                assert(outbox@.take(pre.len() as int) =~= pre);
                if zones_short(fc) {
                    assert(4 * fc[i as int].zone@.len() <= WIRE_MAX);
                    assert(b1.len() == b0.len() + 1 && outbox@.len() == b1.len() + 1);
                    assert forall|j: int| pre.len() <= j < b0.len() implies outbox@[j] == b0[j] by {
                        assert(outbox@.take(b1.len() as int)[j] == outbox@[j]);
                        assert(b1.take(b0.len() as int)[j] == b1[j]);
                    }
                    assert(outbox@[b0.len() as int] == b1.last()) by {
                        assert(outbox@.take(b1.len() as int)[b0.len() as int] == outbox@[b0.len() as int]);
                    }
                    assert(outbox@[b1.len() as int] == outbox@.last());
                    assert forall|k: int| 0 <= k < i + 1 implies ({
                        let a = #[trigger] fc.take(i + 1)[k];
                        &&& outbox@[pre.len() + 2 * k].data@ == enc(
                            VariantView::Dictionary(instance_actor_packet_view(a)),
                        )
                        &&& outbox@[pre.len() + 2 * k].target == P2pPacketTarget::SteamId(target)
                        &&& outbox@[pre.len() + 2 * k].channel == P2pChannel::GameState
                        &&& outbox@[pre.len() + 2 * k].send_type == Reliability::Reliable
                        &&& outbox@[pre.len() + 2 * k + 1].data@ == enc(
                            VariantView::Dictionary(actor_update_packet_view(a)),
                        )
                        &&& outbox@[pre.len() + 2 * k + 1].target == P2pPacketTarget::SteamId(
                            target,
                        )
                        &&& outbox@[pre.len() + 2 * k + 1].channel == P2pChannel::GameState
                        &&& outbox@[pre.len() + 2 * k + 1].send_type == Reliability::Reliable
                    }) by {
                        assert(fc.take(i + 1)[k] == fc[k]);
                        if k < i {
                            assert(fc.take(i as int)[k] == fc[k]);
                            assert(outbox@[pre.len() + 2 * k] == b0[pre.len() + 2 * k]);
                            assert(outbox@[pre.len() + 2 * k + 1] == b0[pre.len() + 2 * k + 1]);
                        } else {
                            assert(outbox@[pre.len() + 2 * k] == b1.last());
                            assert(outbox@[pre.len() + 2 * k + 1] == outbox@.last());
                        }
                    }
                }
            }
            i += 1;
        }
        proof {
            if zones_short(fc) {
                assert(fc.take(n as int) =~= fc);
            }
        }
    }

}

} // verus!
