//! The authoritative actor registry: lookup by id, by creator and by type,
//! a secondary index from creator to actor ids, and the quota rules deciding
//! which peers may instantiate which actor kinds.

use crate::variant::Vector3;
use vstd::prelude::*;

verus! {

broadcast use vstd::std_specs::vec::axiom_vec_index_decreases, vstd::std_specs::vec::axiom_spec_len;

/// The most actors any one creator may own.
pub const MAX_ACTORS_PER_PLAYER: usize = 32;

/// The closed set of actor kinds the protocol knows; anything else is Unknown.
#[derive(Clone, Copy, PartialEq, Eq, Structural, Debug)]
pub enum ActorType {
    Unknown,
    Player,
    FishSpawn,
    FishSpawnAlien,
    Raincloud,
    RaincloudTiny,
    AquaFish,
    MetalSpawn,
    AmbientBird,
    VoidPortal,
    Picnic,
    Canvas,
    Bush,
    Rock,
    FishTrap,
    FishTrapOcean,
    IslandTiny,
    IslandMed,
    IslandBig,
    Boombox,
    Well,
    Campfire,
    Chair,
    Table,
    TherapistChair,
    Toilet,
    Whoopie,
    Beer,
    Greenscreen,
    PortableBait,
}

impl ActorType {
    /// Whether only the host may instantiate this kind.
    pub open spec fn host_only(self) -> bool {
        match self {
            ActorType::FishSpawn => true,
            ActorType::FishSpawnAlien => true,
            ActorType::Raincloud => true,
            ActorType::MetalSpawn => true,
            ActorType::AmbientBird => true,
            ActorType::VoidPortal => true,
            _ => false,
        }
    }

    /// Whether only the host may instantiate this kind.
    pub fn is_create_by_host_only(&self) -> (r: bool)
        ensures
            r == self.host_only(),
    {
        match self {
            ActorType::FishSpawn => true,
            ActorType::FishSpawnAlien => true,
            ActorType::Raincloud => true,
            ActorType::MetalSpawn => true,
            ActorType::AmbientBird => true,
            ActorType::VoidPortal => true,
            _ => false,
        }
    }

    /// The protocol name of each kind.
    pub open spec fn name_spec(self) -> Seq<char> {
        match self {
            ActorType::Unknown => "unknown"@,
            ActorType::Player => "player"@,
            ActorType::FishSpawn => "fish_spawn"@,
            ActorType::FishSpawnAlien => "fish_spawn_alien"@,
            ActorType::Raincloud => "raincloud"@,
            ActorType::RaincloudTiny => "raincloud_tiny"@,
            ActorType::AquaFish => "aqua_fish"@,
            ActorType::MetalSpawn => "metal_spawn"@,
            ActorType::AmbientBird => "ambient_bird"@,
            ActorType::VoidPortal => "void_portal"@,
            ActorType::Picnic => "picnic"@,
            ActorType::Canvas => "canvas"@,
            ActorType::Bush => "bush"@,
            ActorType::Rock => "rock"@,
            ActorType::FishTrap => "fish_trap"@,
            ActorType::FishTrapOcean => "fish_trap_ocean"@,
            ActorType::IslandTiny => "island_tiny"@,
            ActorType::IslandMed => "island_med"@,
            ActorType::IslandBig => "island_big"@,
            ActorType::Boombox => "boombox"@,
            ActorType::Well => "well"@,
            ActorType::Campfire => "campfire"@,
            ActorType::Chair => "chair"@,
            ActorType::Table => "table"@,
            ActorType::TherapistChair => "therapist_chair"@,
            ActorType::Toilet => "toilet"@,
            ActorType::Whoopie => "whoopie"@,
            ActorType::Beer => "beer"@,
            ActorType::Greenscreen => "greenscreen"@,
            ActorType::PortableBait => "portable_bait"@,
        }
    }

    /// The protocol name of this kind.
    pub fn name(&self) -> (s: String)
        ensures
            s@ == self.name_spec(),
    {
        match self {
            ActorType::Unknown => String::from_str("unknown"),
            ActorType::Player => String::from_str("player"),
            ActorType::FishSpawn => String::from_str("fish_spawn"),
            ActorType::FishSpawnAlien => String::from_str("fish_spawn_alien"),
            ActorType::Raincloud => String::from_str("raincloud"),
            ActorType::RaincloudTiny => String::from_str("raincloud_tiny"),
            ActorType::AquaFish => String::from_str("aqua_fish"),
            ActorType::MetalSpawn => String::from_str("metal_spawn"),
            ActorType::AmbientBird => String::from_str("ambient_bird"),
            ActorType::VoidPortal => String::from_str("void_portal"),
            ActorType::Picnic => String::from_str("picnic"),
            ActorType::Canvas => String::from_str("canvas"),
            ActorType::Bush => String::from_str("bush"),
            ActorType::Rock => String::from_str("rock"),
            ActorType::FishTrap => String::from_str("fish_trap"),
            ActorType::FishTrapOcean => String::from_str("fish_trap_ocean"),
            ActorType::IslandTiny => String::from_str("island_tiny"),
            ActorType::IslandMed => String::from_str("island_med"),
            ActorType::IslandBig => String::from_str("island_big"),
            ActorType::Boombox => String::from_str("boombox"),
            ActorType::Well => String::from_str("well"),
            ActorType::Campfire => String::from_str("campfire"),
            ActorType::Chair => String::from_str("chair"),
            ActorType::Table => String::from_str("table"),
            ActorType::TherapistChair => String::from_str("therapist_chair"),
            ActorType::Toilet => String::from_str("toilet"),
            ActorType::Whoopie => String::from_str("whoopie"),
            ActorType::Beer => String::from_str("beer"),
            ActorType::Greenscreen => String::from_str("greenscreen"),
            ActorType::PortableBait => String::from_str("portable_bait"),
        }
    }

    /// The kind a protocol name denotes; names outside the set are Unknown.
    pub open spec fn of_name_spec(s: Seq<char>) -> ActorType {
        if s == "player"@ {
            ActorType::Player
        } else if s == "fish_spawn"@ {
            ActorType::FishSpawn
        } else if s == "fish_spawn_alien"@ {
            ActorType::FishSpawnAlien
        } else if s == "raincloud"@ {
            ActorType::Raincloud
        } else if s == "raincloud_tiny"@ {
            ActorType::RaincloudTiny
        } else if s == "aqua_fish"@ {
            ActorType::AquaFish
        } else if s == "metal_spawn"@ {
            ActorType::MetalSpawn
        } else if s == "ambient_bird"@ {
            ActorType::AmbientBird
        } else if s == "void_portal"@ {
            ActorType::VoidPortal
        } else if s == "picnic"@ {
            ActorType::Picnic
        } else if s == "canvas"@ {
            ActorType::Canvas
        } else if s == "bush"@ {
            ActorType::Bush
        } else if s == "rock"@ {
            ActorType::Rock
        } else if s == "fish_trap"@ {
            ActorType::FishTrap
        } else if s == "fish_trap_ocean"@ {
            ActorType::FishTrapOcean
        } else if s == "island_tiny"@ {
            ActorType::IslandTiny
        } else if s == "island_med"@ {
            ActorType::IslandMed
        } else if s == "island_big"@ {
            ActorType::IslandBig
        } else if s == "boombox"@ {
            ActorType::Boombox
        } else if s == "well"@ {
            ActorType::Well
        } else if s == "campfire"@ {
            ActorType::Campfire
        } else if s == "chair"@ {
            ActorType::Chair
        } else if s == "table"@ {
            ActorType::Table
        } else if s == "therapist_chair"@ {
            ActorType::TherapistChair
        } else if s == "toilet"@ {
            ActorType::Toilet
        } else if s == "whoopie"@ {
            ActorType::Whoopie
        } else if s == "beer"@ {
            ActorType::Beer
        } else if s == "greenscreen"@ {
            ActorType::Greenscreen
        } else if s == "portable_bait"@ {
            ActorType::PortableBait
        } else {
            ActorType::Unknown
        }
    }

    /// Parses a protocol name.
    pub fn from_name(s: &str) -> (t: ActorType)
        ensures
            t == ActorType::of_name_spec(s@),
    {
        if crate::external::str_eq(s, "player") {
            ActorType::Player
        } else if crate::external::str_eq(s, "fish_spawn") {
            ActorType::FishSpawn
        } else if crate::external::str_eq(s, "fish_spawn_alien") {
            ActorType::FishSpawnAlien
        } else if crate::external::str_eq(s, "raincloud") {
            ActorType::Raincloud
        } else if crate::external::str_eq(s, "raincloud_tiny") {
            ActorType::RaincloudTiny
        } else if crate::external::str_eq(s, "aqua_fish") {
            ActorType::AquaFish
        } else if crate::external::str_eq(s, "metal_spawn") {
            ActorType::MetalSpawn
        } else if crate::external::str_eq(s, "ambient_bird") {
            ActorType::AmbientBird
        } else if crate::external::str_eq(s, "void_portal") {
            ActorType::VoidPortal
        } else if crate::external::str_eq(s, "picnic") {
            ActorType::Picnic
        } else if crate::external::str_eq(s, "canvas") {
            ActorType::Canvas
        } else if crate::external::str_eq(s, "bush") {
            ActorType::Bush
        } else if crate::external::str_eq(s, "rock") {
            ActorType::Rock
        } else if crate::external::str_eq(s, "fish_trap") {
            ActorType::FishTrap
        } else if crate::external::str_eq(s, "fish_trap_ocean") {
            ActorType::FishTrapOcean
        } else if crate::external::str_eq(s, "island_tiny") {
            ActorType::IslandTiny
        } else if crate::external::str_eq(s, "island_med") {
            ActorType::IslandMed
        } else if crate::external::str_eq(s, "island_big") {
            ActorType::IslandBig
        } else if crate::external::str_eq(s, "boombox") {
            ActorType::Boombox
        } else if crate::external::str_eq(s, "well") {
            ActorType::Well
        } else if crate::external::str_eq(s, "campfire") {
            ActorType::Campfire
        } else if crate::external::str_eq(s, "chair") {
            ActorType::Chair
        } else if crate::external::str_eq(s, "table") {
            ActorType::Table
        } else if crate::external::str_eq(s, "therapist_chair") {
            ActorType::TherapistChair
        } else if crate::external::str_eq(s, "toilet") {
            ActorType::Toilet
        } else if crate::external::str_eq(s, "whoopie") {
            ActorType::Whoopie
        } else if crate::external::str_eq(s, "beer") {
            ActorType::Beer
        } else if crate::external::str_eq(s, "greenscreen") {
            ActorType::Greenscreen
        } else if crate::external::str_eq(s, "portable_bait") {
            ActorType::PortableBait
        } else {
            ActorType::Unknown
        }
    }
}

/// An addressable world entity: identity, owner, kind, region and pose.
#[derive(Debug)]
pub struct Actor {
    pub id: i64,
    pub creator_id: u64,
    pub actor_type: ActorType,
    pub zone: String,
    pub zone_owner: i64,
    pub position: Vector3,
    pub rotation: Vector3,
}

impl Actor {
    /// A field-for-field copy.
    pub fn duplicate(&self) -> (r: Actor)
        ensures
            r == *self,
    {
        Actor {
            id: self.id,
            creator_id: self.creator_id,
            actor_type: self.actor_type,
            zone: self.zone.clone(),
            zone_owner: self.zone_owner,
            position: self.position,
            rotation: self.rotation,
        }
    }
}

/// The actors of one creator, in registry order.
pub open spec fn filter_creator(s: Seq<Actor>, c: u64) -> Seq<Actor>
    decreases s.len(),
{
    if s.len() == 0 {
        Seq::empty()
    } else if s[0].creator_id == c {
        seq![s[0]] + filter_creator(s.drop_first(), c)
    } else {
        filter_creator(s.drop_first(), c)
    }
}

/// How many actors a creator owns.
pub open spec fn count_creator(s: Seq<Actor>, c: u64) -> nat {
    filter_creator(s, c).len()
}

/// How many Player actors a creator owns.
pub open spec fn count_player(s: Seq<Actor>, c: u64) -> nat
    decreases s.len(),
{
    if s.len() == 0 {
        0
    } else {
        count_player(s.drop_first(), c) + (if s[0].creator_id == c && s[0].actor_type
            == ActorType::Player {
            1nat
        } else {
            0nat
        })
    }
}

/// The actors of one kind, in registry order.
pub open spec fn filter_type(s: Seq<Actor>, t: ActorType) -> Seq<Actor>
    decreases s.len(),
{
    if s.len() == 0 {
        Seq::empty()
    } else if s[0].actor_type == t {
        seq![s[0]] + filter_type(s.drop_first(), t)
    } else {
        filter_type(s.drop_first(), t)
    }
}

/// Extending the registry by one actor extends one creator's slice.
pub proof fn lemma_filter_creator_push(s: Seq<Actor>, c: u64, a: Actor)
    ensures
        filter_creator(s.push(a), c) == (if a.creator_id == c {
            filter_creator(s, c).push(a)
        } else {
            filter_creator(s, c)
        }),
    decreases s.len(),
{
    if s.len() == 0 {
        assert(s.push(a)[0] == a);
        assert(s.push(a).drop_first() =~= s);
        if a.creator_id == c {
            assert(filter_creator(s.push(a), c) =~= filter_creator(s, c).push(a));
        }
    } else {
        assert(s.push(a)[0] == s[0]);
        assert(s.push(a).drop_first() =~= s.drop_first().push(a));
        lemma_filter_creator_push(s.drop_first(), c, a);
        if a.creator_id == c {
            if s[0].creator_id == c {
                assert(seq![s[0]] + filter_creator(s.drop_first(), c).push(a) =~= (seq![s[0]]
                    + filter_creator(s.drop_first(), c)).push(a));
            }
        }
    }
}

/// Extending the registry by one actor extends one creator's player count.
pub proof fn lemma_count_player_push(s: Seq<Actor>, c: u64, a: Actor)
    ensures
        count_player(s.push(a), c) == count_player(s, c) + (if a.creator_id == c && a.actor_type
            == ActorType::Player {
            1nat
        } else {
            0nat
        }),
    decreases s.len(),
{
    if s.len() == 0 {
        assert(s.push(a)[0] == a);
        assert(s.push(a).drop_first() =~= s);
    } else {
        assert(s.push(a)[0] == s[0]);
        assert(s.push(a).drop_first() =~= s.drop_first().push(a));
        lemma_count_player_push(s.drop_first(), c, a);
    }
}

/// Removing one actor from the registry shrinks its creator's slice count by
/// one and no other creator's.
pub proof fn lemma_filter_creator_remove(s: Seq<Actor>, c: u64, i: int)
    requires
        0 <= i < s.len(),
    ensures
        count_creator(s.remove(i), c) == count_creator(s, c) - (if s[i].creator_id == c {
            1int
        } else {
            0int
        }),
    decreases s.len(),
{
    if i == 0 {
        assert(s.remove(0) =~= s.drop_first());
    } else {
        assert(s.remove(i)[0] == s[0]);
        assert(s.remove(i).drop_first() =~= s.drop_first().remove(i - 1));
        lemma_filter_creator_remove(s.drop_first(), c, i - 1);
    }
}

/// Removing one actor never raises a creator's player count.
pub proof fn lemma_count_player_remove(s: Seq<Actor>, c: u64, i: int)
    requires
        0 <= i < s.len(),
    ensures
        count_player(s.remove(i), c) == count_player(s, c) - (if s[i].creator_id == c
            && s[i].actor_type == ActorType::Player {
            1int
        } else {
            0int
        }),
    decreases s.len(),
{
    if i == 0 {
        assert(s.remove(0) =~= s.drop_first());
    } else {
        assert(s.remove(i)[0] == s[0]);
        assert(s.remove(i).drop_first() =~= s.drop_first().remove(i - 1));
        lemma_count_player_remove(s.drop_first(), c, i - 1);
    }
}

} // verus!

verus! {

/// The ids recorded for one creator: first matching entry, else none.
pub open spec fn ids_lookup(entries: Seq<(u64, Vec<i64>)>, c: u64) -> Seq<i64>
    decreases entries.len(),
{
    if entries.len() == 0 {
        Seq::empty()
    } else if entries[0].0 == c {
        entries[0].1@
    } else {
        ids_lookup(entries.drop_first(), c)
    }
}

/// With pairwise distinct keys, the lookup yields the entry that carries the key.
pub proof fn lemma_lookup_at_index(entries: Seq<(u64, Vec<i64>)>, i: int)
    requires
        0 <= i < entries.len(),
        forall|p: int, q: int| 0 <= p < q < entries.len() ==> entries[p].0 != entries[q].0,
    ensures
        ids_lookup(entries, entries[i].0) == entries[i].1@,
    decreases entries.len(),
{
    if i > 0 {
        assert(entries[0].0 != entries[i].0);
        assert(entries.drop_first()[i - 1] == entries[i]);
        lemma_lookup_at_index(entries.drop_first(), i - 1);
    }
}

/// A key under no entry looks up empty.
pub proof fn lemma_lookup_missing(entries: Seq<(u64, Vec<i64>)>, c: u64)
    requires
        forall|p: int| 0 <= p < entries.len() ==> (#[trigger] entries[p]).0 != c,
    ensures
        ids_lookup(entries, c) == Seq::<i64>::empty(),
    decreases entries.len(),
{
    if entries.len() > 0 {
        lemma_lookup_missing(entries.drop_first(), c);
    }
}

/// Replacing one entry changes only its own key's lookup.
pub proof fn lemma_lookup_update(entries: Seq<(u64, Vec<i64>)>, i: int, v: Vec<i64>)
    requires
        0 <= i < entries.len(),
        forall|p: int, q: int| 0 <= p < q < entries.len() ==> entries[p].0 != entries[q].0,
    ensures
        ids_lookup(entries.update(i, (entries[i].0, v)), entries[i].0) == v@,
        forall|c2: u64|
            c2 != entries[i].0 ==> ids_lookup(entries.update(i, (entries[i].0, v)), c2)
                == ids_lookup(entries, c2),
    decreases entries.len(),
{
    let e2 = entries.update(i, (entries[i].0, v));
    if i == 0 {
        assert(e2[0] == (entries[0].0, v));
        assert(e2.drop_first() =~= entries.drop_first());
        assert forall|c2: u64| c2 != entries[i].0 implies ids_lookup(e2, c2) == ids_lookup(
            entries,
            c2,
        ) by {
            assert(e2[0].0 == entries[0].0);
        }
    } else {
        assert(e2[0] == entries[0]);
        assert(e2.drop_first() =~= entries.drop_first().update(i - 1, (entries[i].0, v)));
        assert(entries.drop_first()[i - 1] == entries[i]);
        lemma_lookup_update(entries.drop_first(), i - 1, v);
        assert(entries[0].0 != entries[i].0);
        assert(ids_lookup(e2, entries[i].0) == ids_lookup(e2.drop_first(), entries[i].0));
        assert forall|c2: u64| c2 != entries[i].0 implies ids_lookup(e2, c2) == ids_lookup(
            entries,
            c2,
        ) by {
            if entries[0].0 == c2 {
            } else {
                assert(ids_lookup(e2, c2) == ids_lookup(e2.drop_first(), c2));
                assert(ids_lookup(entries, c2) == ids_lookup(entries.drop_first(), c2));
            }
        }
    }
}

/// Appending an entry under a fresh key adds only that key's lookup.
pub proof fn lemma_lookup_push(entries: Seq<(u64, Vec<i64>)>, c: u64, v: Vec<i64>)
    requires
        forall|p: int| 0 <= p < entries.len() ==> (#[trigger] entries[p]).0 != c,
    ensures
        ids_lookup(entries.push((c, v)), c) == v@,
        forall|c2: u64| c2 != c ==> ids_lookup(entries.push((c, v)), c2) == ids_lookup(entries, c2),
    decreases entries.len(),
{
    let e2 = entries.push((c, v));
    if entries.len() == 0 {
        assert(e2[0] == (c, v));
        assert(e2.drop_first() =~= entries);
        assert forall|c2: u64| c2 != c implies ids_lookup(e2, c2) == ids_lookup(entries, c2) by {
            assert(ids_lookup(e2, c2) == ids_lookup(entries, c2));
        }
    } else {
        assert(e2[0] == entries[0]);
        assert(e2.drop_first() =~= entries.drop_first().push((c, v)));
        lemma_lookup_push(entries.drop_first(), c, v);
        assert(entries[0].0 != c);
        assert(ids_lookup(e2, c) == ids_lookup(e2.drop_first(), c));
        assert forall|c2: u64| c2 != c implies ids_lookup(e2, c2) == ids_lookup(entries, c2) by {
            if entries[0].0 == c2 {
            } else {
                assert(ids_lookup(e2, c2) == ids_lookup(e2.drop_first(), c2));
                assert(ids_lookup(entries, c2) == ids_lookup(entries.drop_first(), c2));
            }
        }
    }
}

/// A sequence of ids with one id struck out.
pub open spec fn ids_without(s: Seq<i64>, id: i64) -> Seq<i64>
    decreases s.len(),
{
    if s.len() == 0 {
        Seq::empty()
    } else if s[0] == id {
        ids_without(s.drop_first(), id)
    } else {
        seq![s[0]] + ids_without(s.drop_first(), id)
    }
}

/// Whether some actor in the sequence carries the id.
pub open spec fn has_id(s: Seq<Actor>, id: i64) -> bool {
    exists|k: int| 0 <= k < s.len() && (#[trigger] s[k]).id == id
}

/// The registry invariant over its two parts: actor ids are unique; index
/// keys are unique; every recorded id belongs to an actor of that creator;
/// no id is recorded twice for one creator; and every actor's id is recorded
/// under its creator.
pub open spec fn wf_parts(s: Seq<Actor>, e: Seq<(u64, Vec<i64>)>) -> bool {
    &&& forall|i: int, j: int| 0 <= i < j < s.len() ==> s[i].id != s[j].id
    &&& forall|i: int, j: int| 0 <= i < j < e.len() ==> e[i].0 != e[j].0
    &&& forall|i: int, j: int|
        0 <= i < e.len() && 0 <= j < e[i].1@.len() ==> owns_in(s, e[i].0, #[trigger] e[i].1@[j])
    &&& forall|i: int, j: int, k: int|
        #![trigger e[i].1@[j], e[i].1@[k]]
        0 <= i < e.len() && 0 <= j < k < e[i].1@.len() ==> e[i].1@[j] != e[i].1@[k]
    &&& forall|k: int|
        0 <= k < s.len() ==> ids_lookup(e, (#[trigger] s[k]).creator_id).contains(s[k].id)
}

/// Whether some actor in the sequence carries the id under the creator.
pub open spec fn owns_in(s: Seq<Actor>, c: u64, id: i64) -> bool {
    exists|k: int| 0 <= k < s.len() && (#[trigger] s[k]).id == id && s[k].creator_id == c
}

/// Ownership survives appending an actor.
pub proof fn lemma_owns_in_push(s: Seq<Actor>, a: Actor, c: u64, id: i64)
    requires
        owns_in(s, c, id),
    ensures
        owns_in(s.push(a), c, id),
{
    let k = choose|k: int| 0 <= k < s.len() && (#[trigger] s[k]).id == id && s[k].creator_id == c;
    assert(s.push(a)[k] == s[k]);
}

/// The canonical registry of actors, with an index from creator to actor ids.
pub struct ActorManager {
    pub actors: Vec<Actor>,
    pub actor_ids_by_creator: Vec<(u64, Vec<i64>)>,
}

impl ActorManager {
    /// Every actor the host knows, in insertion order.
    pub open spec fn actors_seq(&self) -> Seq<Actor> {
        self.actors@
    }

    /// The ids recorded for a creator.
    pub open spec fn creator_ids(&self, c: u64) -> Seq<i64> {
        ids_lookup(self.actor_ids_by_creator@, c)
    }

    /// Whether some actor carries the id.
    pub open spec fn has_actor(&self, id: i64) -> bool {
        exists|k: int| 0 <= k < self.actors@.len() && (#[trigger] self.actors@[k]).id == id
    }

    /// The registry position of the actor with the id.
    pub open spec fn actor_index(&self, id: i64) -> int {
        choose|k: int| 0 <= k < self.actors@.len() && (#[trigger] self.actors@[k]).id == id
    }

    /// The actor with the id.
    pub open spec fn actor_of(&self, id: i64) -> Actor {
        self.actors@[self.actor_index(id)]
    }

    /// Whether the creator owns an actor with the id.
    pub open spec fn owns(&self, c: u64, id: i64) -> bool {
        owns_in(self.actors@, c, id)
    }

    /// The registry's internal consistency: actor ids are unique; index keys
    /// are unique; every recorded id belongs to an actor of that creator; no
    /// id is recorded twice for one creator; and every actor's id is recorded
    /// under its creator.
    pub open spec fn wf(&self) -> bool {
        wf_parts(self.actors@, self.actor_ids_by_creator@)
    }

    pub fn new() -> (m: ActorManager)
        ensures
            m.actors_seq() =~= Seq::<Actor>::empty(),
            m.actor_ids_by_creator@ =~= Seq::<(u64, Vec<i64>)>::empty(),
            m.wf(),
    {
        ActorManager { actors: Vec::new(), actor_ids_by_creator: Vec::new() }
    }

    /// The position of the actor with the id, if present.
    fn find_actor_index(&self, id: i64) -> (r: Option<usize>)
        ensures
            match r {
                Some(k) => k < self.actors@.len() && self.actors@[k as int].id == id,
                None => !self.has_actor(id),
            },
    {
        let n = self.actors.len();
        let mut k: usize = 0;
        while k < n
            invariant
                k <= n,
                n == self.actors@.len(),
                forall|j: int| 0 <= j < k ==> (#[trigger] self.actors@[j]).id != id,
            decreases n - k,
        {
            if self.actors[k].id == id {
                return Some(k);
            }
            k += 1;
        }
        None
    }

    /// With a well-formed registry, an index carrying the id is the index of
    /// the actor with that id.
    pub proof fn lemma_index_of(&self, id: i64, k: int)
        requires
            self.wf(),
            0 <= k < self.actors@.len(),
            self.actors@[k].id == id,
        ensures
            self.has_actor(id),
            self.actor_index(id) == k,
            self.actor_of(id) == self.actors@[k],
    {
        assert(self.has_actor(id));
        let k2 = self.actor_index(id);
        assert(0 <= k2 < self.actors@.len() && self.actors@[k2].id == id);
        if k2 != k {
            assert(self.actors@[k].id != self.actors@[k2].id);
        }
    }

    /// The actor with the given id.
    pub fn get_actor(&self, id: i64) -> (r: Option<&Actor>)
        requires
            self.wf(),
        ensures
            match r {
                Some(a) => self.has_actor(id) && *a == self.actor_of(id),
                None => !self.has_actor(id),
            },
    {
        match self.find_actor_index(id) {
            Some(k) => {
                proof {
                    self.lemma_index_of(id, k as int);
                }
                Some(&self.actors[k])
            },
            None => None,
        }
    }
}

} // verus!

verus! {

/// Well-formedness survives recording a fresh actor onto its creator's
/// existing index entry.
proof fn lemma_insert_wf_existing(
    s: Seq<Actor>,
    e: Seq<(u64, Vec<i64>)>,
    a: Actor,
    i0: int,
    v2: Vec<i64>,
)
    requires
        wf_parts(s, e),
        !has_id(s, a.id),
        0 <= i0 < e.len(),
        e[i0].0 == a.creator_id,
        v2@ == e[i0].1@.push(a.id),
    ensures
        wf_parts(s.push(a), e.update(i0, (a.creator_id, v2))),
{
    let s2 = s.push(a);
    let e2 = e.update(i0, (a.creator_id, v2));
    lemma_lookup_at_index(e, i0);
    lemma_lookup_update(e, i0, v2);
    assert forall|i: int, j: int| 0 <= i < j < s2.len() implies s2[i].id != s2[j].id by {
        if j == s.len() {
            assert(s2[i] == s[i]);
            assert(!(s[i].id == a.id));
        } else {
            assert(s2[i] == s[i] && s2[j] == s[j]);
        }
    }
    assert forall|i: int, j: int|
        0 <= i < e2.len() && 0 <= j < e2[i].1@.len() implies owns_in(
        s2,
        e2[i].0,
        #[trigger] e2[i].1@[j],
    ) by {
        if i == i0 && j == e[i0].1@.len() {
            assert(s2[s.len() as int] == a);
            assert(owns_in(s2, a.creator_id, a.id));
        } else {
            assert(e2[i].1@[j] == e[i].1@[j]);
            assert(owns_in(s, e[i].0, e[i].1@[j]));
            lemma_owns_in_push(s, a, e[i].0, e[i].1@[j]);
        }
    }
    assert forall|i: int, j: int, k: int|
        #![trigger e2[i].1@[j], e2[i].1@[k]]
        0 <= i < e2.len() && 0 <= j < k < e2[i].1@.len() implies e2[i].1@[j] != e2[i].1@[k] by {
        if i == i0 && k == e[i0].1@.len() {
            assert(e2[i].1@[j] == e[i].1@[j]);
            assert(owns_in(s, e[i0].0, e[i0].1@[j]));
            if e[i0].1@[j] == a.id {
                assert(has_id(s, a.id));
            }
        } else if i == i0 {
            assert(e2[i].1@[j] == e[i].1@[j] && e2[i].1@[k] == e[i].1@[k]);
        } else {
            assert(e2[i] == e[i]);
        }
    }
    assert forall|k: int|
        0 <= k < s2.len() implies ids_lookup(e2, (#[trigger] s2[k]).creator_id).contains(
        s2[k].id,
    ) by {
        if k < s.len() {
            assert(s2[k] == s[k]);
            let c2 = s[k].creator_id;
            assert(ids_lookup(e, c2).contains(s[k].id));
            if c2 == a.creator_id {
                assert(ids_lookup(e2, c2) == v2@);
                let idx = choose|idx: int|
                    0 <= idx < ids_lookup(e, c2).len() && ids_lookup(e, c2)[idx] == s[k].id;
                assert(v2@[idx] == s[k].id);
            } else {
                assert(ids_lookup(e2, c2) == ids_lookup(e, c2));
            }
        } else {
            assert(s2[k] == a);
            assert(ids_lookup(e2, a.creator_id) == v2@);
            assert(v2@[v2@.len() - 1] == a.id);
        }
    }
}

/// Well-formedness survives recording a fresh actor under a fresh index entry.
proof fn lemma_insert_wf_new(s: Seq<Actor>, e: Seq<(u64, Vec<i64>)>, a: Actor, v2: Vec<i64>)
    requires
        wf_parts(s, e),
        !has_id(s, a.id),
        forall|p: int| 0 <= p < e.len() ==> (#[trigger] e[p]).0 != a.creator_id,
        v2@ == seq![a.id],
    ensures
        wf_parts(s.push(a), e.push((a.creator_id, v2))),
{
    let s2 = s.push(a);
    let e2 = e.push((a.creator_id, v2));
    lemma_lookup_push(e, a.creator_id, v2);
    lemma_lookup_missing(e, a.creator_id);
    assert forall|i: int, j: int| 0 <= i < j < s2.len() implies s2[i].id != s2[j].id by {
        if j == s.len() {
            assert(s2[i] == s[i]);
            assert(!(s[i].id == a.id));
        } else {
            assert(s2[i] == s[i] && s2[j] == s[j]);
        }
    }
    assert forall|i: int, j: int| 0 <= i < j < e2.len() implies e2[i].0 != e2[j].0 by {
        assert(e2[i] == e[i]);
        if j < e.len() {
            assert(e2[j] == e[j]);
        }
    }
    assert forall|i: int, j: int|
        0 <= i < e2.len() && 0 <= j < e2[i].1@.len() implies owns_in(
        s2,
        e2[i].0,
        #[trigger] e2[i].1@[j],
    ) by {
        if i == e.len() {
            assert(e2[i] == (a.creator_id, v2));
            assert(e2[i].1@[j] == a.id);
            assert(s2[s.len() as int] == a);
            assert(owns_in(s2, a.creator_id, a.id));
        } else {
            assert(e2[i] == e[i]);
            assert(owns_in(s, e[i].0, e[i].1@[j]));
            lemma_owns_in_push(s, a, e[i].0, e[i].1@[j]);
        }
    }
    assert forall|i: int, j: int, k: int|
        #![trigger e2[i].1@[j], e2[i].1@[k]]
        0 <= i < e2.len() && 0 <= j < k < e2[i].1@.len() implies e2[i].1@[j] != e2[i].1@[k] by {
        if i < e.len() {
            assert(e2[i] == e[i]);
        } else {
            assert(e2[i].1@.len() == 1);
        }
    }
    assert forall|k: int|
        0 <= k < s2.len() implies ids_lookup(e2, (#[trigger] s2[k]).creator_id).contains(
        s2[k].id,
    ) by {
        if k < s.len() {
            assert(s2[k] == s[k]);
            let c2 = s[k].creator_id;
            assert(ids_lookup(e, c2).contains(s[k].id));
            if c2 == a.creator_id {
                lemma_lookup_missing(e, c2);
                assert(false);
            } else {
                assert(ids_lookup(e2, c2) == ids_lookup(e, c2));
            }
        } else {
            assert(s2[k] == a);
            assert(ids_lookup(e2, a.creator_id) == v2@);
            assert(v2@[0] == a.id);
        }
    }
}

impl ActorManager {
    /// Records an actor, with no admission checks and no network traffic.
    /// The caller must have checked the quota rules and drawn a fresh id:
    /// the registry never silently overwrites a record.
    pub fn insert_actor(&mut self, actor: Actor)
        requires
            old(self).wf(),
            !old(self).has_actor(actor.id),
        ensures
            final(self).wf(),
            final(self).actors@ == old(self).actors@.push(actor),
            final(self).creator_ids(actor.creator_id) == old(self).creator_ids(
                actor.creator_id,
            ).push(actor.id),
            forall|c2: u64|
                c2 != actor.creator_id ==> final(self).creator_ids(c2) == old(self).creator_ids(
                    c2,
                ),
    {
        let ghost s = self.actors@;
        let ghost e = self.actor_ids_by_creator@;
        let c = actor.creator_id;
        let aid = actor.id;
        let ghost a_ghost = actor;
        proof {
            assert(!has_id(s, aid));
        }
        self.actors.push(actor);
        let n = self.actor_ids_by_creator.len();
        let mut i: usize = 0;
        while i < n
            invariant
                i <= n,
                n == e.len(),
                self.actor_ids_by_creator@ == e,
                self.actors@ == s.push(a_ghost),
                old(self).actors@ == s,
                old(self).actor_ids_by_creator@ == e,
                wf_parts(s, e),
                !has_id(s, aid),
                a_ghost.creator_id == c,
                a_ghost.id == aid,
                a_ghost == actor,
                forall|p: int| 0 <= p < i ==> (#[trigger] e[p]).0 != c,
            decreases n - i,
        {
            if self.actor_ids_by_creator[i].0 == c {
                self.actor_ids_by_creator[i].1.push(aid);
                proof {
                    let v2 = self.actor_ids_by_creator@[i as int].1;
                    assert(v2@ == e[i as int].1@.push(aid));
                    assert(self.actor_ids_by_creator@ =~= e.update(i as int, (c, v2)));
                    lemma_lookup_at_index(e, i as int);
                    lemma_lookup_update(e, i as int, v2);
                    lemma_insert_wf_existing(s, e, a_ghost, i as int, v2);
                }
                return ;
            }
            i += 1;
        }
        let mut ids: Vec<i64> = Vec::new();
        ids.push(aid);
        self.actor_ids_by_creator.push((c, ids));
        proof {
            let v2 = self.actor_ids_by_creator@[e.len() as int].1;
            assert(v2@ =~= seq![aid]);
            assert(self.actor_ids_by_creator@ =~= e.push((c, v2)));
            lemma_lookup_push(e, c, v2);
            lemma_lookup_missing(e, c);
            assert(ids_lookup(e, c).push(aid) =~= v2@);
            lemma_insert_wf_new(s, e, a_ghost, v2);
        }
    }
}

} // verus!

verus! {

/// Striking an id keeps exactly the other ids.
pub proof fn lemma_ids_without_contains(s: Seq<i64>, id: i64)
    ensures
        forall|x: i64| #[trigger] ids_without(s, id).contains(x) <==> (s.contains(x) && x != id),
    decreases s.len(),
{
    lemma_ids_without_contains_rec(s, id);
}

proof fn lemma_ids_without_contains_rec(s: Seq<i64>, id: i64)
    ensures
        forall|x: i64| #[trigger] ids_without(s, id).contains(x) <==> (s.contains(x) && x != id),
    decreases s.len(),
{
    if s.len() == 0 {
        assert forall|x: i64| #[trigger] ids_without(s, id).contains(x) <==> (s.contains(x) && x
            != id) by {
            assert(!s.contains(x));
        }
    } else {
        lemma_ids_without_contains_rec(s.drop_first(), id);
        assert forall|x: i64| #[trigger] ids_without(s, id).contains(x) <==> (s.contains(x) && x
            != id) by {
            let t = ids_without(s, id);
            let r = ids_without(s.drop_first(), id);
            if s[0] == id {
                assert(t == r);
                if s.contains(x) && x != id {
                    let j = choose|j: int| 0 <= j < s.len() && s[j] == x;
                    assert(s.drop_first()[j - 1] == x);
                    assert(s.drop_first().contains(x));
                }
                if r.contains(x) {
                    assert(s.drop_first().contains(x));
                    let j = choose|j: int| 0 <= j < s.drop_first().len() && s.drop_first()[j] == x;
                    assert(s[j + 1] == x);
                }
            } else {
                assert(t == seq![s[0]] + r);
                if t.contains(x) {
                    let j = choose|j: int| 0 <= j < t.len() && t[j] == x;
                    if j == 0 {
                        assert(x == s[0]);
                        assert(s.contains(x));
                    } else {
                        assert(r[j - 1] == x);
                        assert(r.contains(x));
                        let j2 = choose|j2: int|
                            0 <= j2 < s.drop_first().len() && s.drop_first()[j2] == x;
                        assert(s[j2 + 1] == x);
                    }
                }
                if s.contains(x) && x != id {
                    let j = choose|j: int| 0 <= j < s.len() && s[j] == x;
                    if j == 0 {
                        assert(t[0] == x);
                    } else {
                        assert(s.drop_first()[j - 1] == x);
                        assert(s.drop_first().contains(x));
                        assert(r.contains(x));
                        let j2 = choose|j2: int| 0 <= j2 < r.len() && r[j2] == x;
                        assert(t[j2 + 1] == x);
                    }
                }
            }
        }
    }
}

/// Striking an id keeps the remaining ids pairwise distinct.
pub proof fn lemma_ids_without_unique(s: Seq<i64>, id: i64)
    requires
        forall|j: int, k: int| #![trigger s[j], s[k]] 0 <= j < k < s.len() ==> s[j] != s[k],
    ensures
        forall|j: int, k: int|
            #![trigger ids_without(s, id)[j], ids_without(s, id)[k]]
            0 <= j < k < ids_without(s, id).len() ==> ids_without(s, id)[j] != ids_without(
                s,
                id,
            )[k],
    decreases s.len(),
{
    if s.len() > 0 {
        assert forall|j: int, k: int|
            #![trigger s.drop_first()[j], s.drop_first()[k]]
            0 <= j < k < s.drop_first().len() implies s.drop_first()[j] != s.drop_first()[k] by {
            assert(s.drop_first()[j] == s[j + 1] && s.drop_first()[k] == s[k + 1]);
        }
        lemma_ids_without_unique(s.drop_first(), id);
        let r = ids_without(s.drop_first(), id);
        let t = ids_without(s, id);
        if s[0] == id {
        } else {
            assert(t == seq![s[0]] + r);
            lemma_ids_without_contains_rec(s.drop_first(), id);
            assert forall|j: int, k: int| #![trigger t[j], t[k]] 0 <= j < k < t.len() implies t[j]
                != t[k] by {
                if j == 0 {
                    assert(t[k] == r[k - 1]);
                    assert(r.contains(r[k - 1]));
                    assert(s.drop_first().contains(r[k - 1]));
                    let w = choose|w: int|
                        0 <= w < s.drop_first().len() && s.drop_first()[w] == r[k - 1];
                    assert(s[w + 1] == r[k - 1]);
                    assert(s[0] != s[w + 1]);
                } else {
                    assert(t[j] == r[j - 1] && t[k] == r[k - 1]);
                }
            }
        }
    }
}

/// An absent id stays absent when an actor is removed.
pub proof fn lemma_not_has_after_remove(s: Seq<Actor>, k: int, x: i64)
    requires
        0 <= k < s.len(),
        !has_id(s, x),
    ensures
        !has_id(s.remove(k), x),
{
    assert forall|w: int| 0 <= w < s.remove(k).len() implies (#[trigger] s.remove(k)[w]).id
        != x by {
        if w < k {
            assert(s.remove(k)[w] == s[w]);
        } else {
            assert(s.remove(k)[w] == s[w + 1]);
        }
    }
}

/// Ownership of another id survives removing one actor.
pub proof fn lemma_owns_in_remove(s: Seq<Actor>, k: int, c2: u64, id2: i64)
    requires
        0 <= k < s.len(),
        owns_in(s, c2, id2),
        id2 != s[k].id,
    ensures
        owns_in(s.remove(k), c2, id2),
{
    let w = choose|w: int| 0 <= w < s.len() && (#[trigger] s[w]).id == id2 && s[w].creator_id == c2;
    if w < k {
        assert(s.remove(k)[w] == s[w]);
    } else {
        assert(s.remove(k)[w - 1] == s[w]);
    }
}

impl ActorManager {
    /// Strikes the actor with the id from the registry and its creator's
    /// index entry; without a record, the registry is untouched. No network
    /// traffic is sent.
    pub fn remove_actor(&mut self, id: i64)
        requires
            old(self).wf(),
        ensures
            final(self).wf(),
            old(self).has_actor(id) ==> ({
                let k = old(self).actor_index(id);
                let c = old(self).actor_of(id).creator_id;
                &&& final(self).actors@ == old(self).actors@.remove(k)
                &&& final(self).creator_ids(c) == ids_without(old(self).creator_ids(c), id)
                &&& forall|c2: u64|
                    c2 != c ==> final(self).creator_ids(c2) == old(self).creator_ids(c2)
            }),
            !old(self).has_actor(id) ==> final(self).actors@ == old(self).actors@
                && final(self).actor_ids_by_creator@ == old(self).actor_ids_by_creator@,
    {
        let ghost s = self.actors@;
        let ghost e = self.actor_ids_by_creator@;
        let k = match self.find_actor_index(id) {
            Some(k) => k,
            None => {
                return ;
            },
        };
        proof {
            self.lemma_index_of(id, k as int);
        }
        let c = self.actors[k].creator_id;
        self.actors.remove(k);
        let ghost s2 = self.actors@;
        let n = self.actor_ids_by_creator.len();
        let mut i: usize = 0;
        while i < n
            invariant
                i <= n,
                n == e.len(),
                self.actor_ids_by_creator@ == e,
                self.actors@ == s2,
                s2 == s.remove(k as int),
                old(self).actors@ == s,
                old(self).actor_ids_by_creator@ == e,
                wf_parts(s, e),
                0 <= k < s.len(),
                s[k as int].id == id,
                s[k as int].creator_id == c,
                old(self).has_actor(id),
                old(self).actor_index(id) == k as int,
                old(self).actor_of(id) == s[k as int],
                forall|p: int| 0 <= p < i ==> (#[trigger] e[p]).0 != c,
            decreases n - i,
        {
            if self.actor_ids_by_creator[i].0 == c {
                let m = self.actor_ids_by_creator[i].1.len();
                let mut kept: Vec<i64> = Vec::new();
                let ghost olds = e[i as int].1@;
                let mut j: usize = 0;
                proof {
                    assert(olds.skip(0) =~= olds);
                }
                while j < m
                    invariant
                        j <= m,
                        m == olds.len(),
                        self.actor_ids_by_creator@ == e,
                        i < e.len(),
                        olds == e[i as int].1@,
                        ids_without(olds, id) == kept@ + ids_without(olds.skip(j as int), id),
                    decreases m - j,
                {
                    proof {
                        assert(olds.skip(j as int)[0] == olds[j as int]);
                        assert(olds.skip(j as int).drop_first() =~= olds.skip(j + 1));
                    }
                    let x = self.actor_ids_by_creator[i].1[j];
                    if x != id {
                        kept.push(x);
                        proof {
                            assert(kept@ + ids_without(olds.skip(j + 1), id) =~= kept@.drop_last()
                                + (seq![x] + ids_without(olds.skip(j + 1), id)));
                        }
                    }
                    j += 1;
                }
                proof {
                    assert(olds.skip(m as int) =~= Seq::<i64>::empty());
                    assert(kept@ =~= kept@ + ids_without(olds.skip(m as int), id));
                    assert(kept@ == ids_without(olds, id));
                }
                self.actor_ids_by_creator[i] = (c, kept);
                proof {
                    let v2 = self.actor_ids_by_creator@[i as int].1;
                    assert(self.actor_ids_by_creator@ =~= e.update(i as int, (c, v2)));
                    lemma_lookup_at_index(e, i as int);
                    lemma_lookup_update(e, i as int, v2);
                    lemma_remove_wf(s, e, k as int, i as int, v2);
                }
                return ;
            }
            i += 1;
        }
        proof {
            // The departing actor's creator has an index entry: its id is
            // recorded, so the scan cannot have come up empty.
            assert(ids_lookup(e, c).contains(s[k as int].id));
            lemma_lookup_missing(e, c);
            assert(false);
        }
    }
}

/// Well-formedness survives removing an actor and striking its id from its
/// creator's entry.
proof fn lemma_remove_wf(s: Seq<Actor>, e: Seq<(u64, Vec<i64>)>, k: int, i0: int, v2: Vec<i64>)
    requires
        wf_parts(s, e),
        0 <= k < s.len(),
        0 <= i0 < e.len(),
        e[i0].0 == s[k].creator_id,
        v2@ == ids_without(e[i0].1@, s[k].id),
    ensures
        wf_parts(s.remove(k), e.update(i0, (e[i0].0, v2))),
{
    let id = s[k].id;
    let c = s[k].creator_id;
    let s2 = s.remove(k);
    let e2 = e.update(i0, (c, v2));
    lemma_lookup_at_index(e, i0);
    lemma_lookup_update(e, i0, v2);
    lemma_ids_without_contains(e[i0].1@, id);
    lemma_ids_without_unique(e[i0].1@, id);
    assert forall|i: int, j: int| 0 <= i < j < s2.len() implies s2[i].id != s2[j].id by {
        let i2 = if i < k {
            i
        } else {
            i + 1
        };
        let j2 = if j < k {
            j
        } else {
            j + 1
        };
        assert(s2[i] == s[i2] && s2[j] == s[j2]);
    }
    assert forall|i: int, j: int|
        0 <= i < e2.len() && 0 <= j < e2[i].1@.len() implies owns_in(
        s2,
        e2[i].0,
        #[trigger] e2[i].1@[j],
    ) by {
        if i == i0 {
            let x = e2[i].1@[j];
            assert(v2@.contains(x));
            assert(e[i0].1@.contains(x) && x != id);
            let j2 = choose|j2: int| 0 <= j2 < e[i0].1@.len() && e[i0].1@[j2] == x;
            assert(owns_in(s, c, x));
            lemma_owns_in_remove(s, k, c, x);
        } else {
            assert(e2[i] == e[i]);
            let x = e[i].1@[j];
            assert(owns_in(s, e[i].0, x));
            if x == id {
                // Two entries would record the one actor with this id.
                let w = choose|w: int|
                    0 <= w < s.len() && (#[trigger] s[w]).id == x && s[w].creator_id == e[i].0;
                if w != k {
                    assert(s[w].id != s[k].id);
                }
                assert(e[i].0 == c);
            }
            lemma_owns_in_remove(s, k, e[i].0, x);
        }
    }
    assert forall|i: int, j: int, jj: int|
        #![trigger e2[i].1@[j], e2[i].1@[jj]]
        0 <= i < e2.len() && 0 <= j < jj < e2[i].1@.len() implies e2[i].1@[j] != e2[i].1@[jj] by {
        if i != i0 {
            assert(e2[i] == e[i]);
        }
    }
    assert forall|w: int|
        0 <= w < s2.len() implies ids_lookup(e2, (#[trigger] s2[w]).creator_id).contains(
        s2[w].id,
    ) by {
        let w2 = if w < k {
            w
        } else {
            w + 1
        };
        assert(s2[w] == s[w2]);
        let c2 = s[w2].creator_id;
        assert(ids_lookup(e, c2).contains(s[w2].id));
        assert(s[w2].id != id) by {
            if w2 != k {
                assert(s[w2].id != s[k].id || w2 == k);
            }
        }
        if c2 == c {
            assert(ids_lookup(e, c2) == e[i0].1@);
            assert(v2@.contains(s[w2].id));
            assert(ids_lookup(e2, c2) == v2@);
        } else {
            assert(ids_lookup(e2, c2) == ids_lookup(e, c2));
        }
    }
}

} // verus!

verus! {

/// Whether the rules let a creator instantiate one more actor of a kind:
/// one Player per creator; host-only kinds for the host alone; and at most
/// MAX_ACTORS_PER_PLAYER actors per creator for everything else.
pub open spec fn can_create(s: Seq<Actor>, c: u64, is_host: bool, t: ActorType) -> bool {
    if t == ActorType::Player {
        count_player(s, c) == 0
    } else if t.host_only() && !is_host {
        false
    } else {
        count_creator(s, c) < MAX_ACTORS_PER_PLAYER
    }
}

/// The actors that do not belong to one creator, in registry order.
pub open spec fn filter_not_creator(s: Seq<Actor>, c: u64) -> Seq<Actor>
    decreases s.len(),
{
    if s.len() == 0 {
        Seq::empty()
    } else if s[0].creator_id == c {
        filter_not_creator(s.drop_first(), c)
    } else {
        seq![s[0]] + filter_not_creator(s.drop_first(), c)
    }
}

/// A creator with a player actor has a positive player count.
pub proof fn lemma_count_player_pos(s: Seq<Actor>, c: u64, k: int)
    requires
        0 <= k < s.len(),
        s[k].creator_id == c,
        s[k].actor_type == ActorType::Player,
    ensures
        count_player(s, c) > 0,
    decreases s.len(),
{
    if k > 0 {
        assert(s.drop_first()[k - 1] == s[k]);
        lemma_count_player_pos(s.drop_first(), c, k - 1);
    }
}

/// Removing an actor of the creator leaves the other creators' slice intact.
pub proof fn lemma_filter_not_creator_remove(s: Seq<Actor>, c: u64, k: int)
    requires
        0 <= k < s.len(),
        s[k].creator_id == c,
    ensures
        filter_not_creator(s.remove(k), c) == filter_not_creator(s, c),
    decreases s.len(),
{
    if k == 0 {
        assert(s.remove(0) =~= s.drop_first());
    } else {
        assert(s.remove(k)[0] == s[0]);
        assert(s.remove(k).drop_first() =~= s.drop_first().remove(k - 1));
        lemma_filter_not_creator_remove(s.drop_first(), c, k - 1);
    }
}

/// A registry with no actor of the creator equals its own other-creators slice.
pub proof fn lemma_filter_not_creator_all(s: Seq<Actor>, c: u64)
    requires
        forall|k: int| 0 <= k < s.len() ==> (#[trigger] s[k]).creator_id != c,
    ensures
        filter_not_creator(s, c) == s,
    decreases s.len(),
{
    if s.len() > 0 {
        lemma_filter_not_creator_all(s.drop_first(), c);
        assert(seq![s[0]] + s.drop_first() =~= s);
    }
}

impl ActorManager {
    /// Every actor of the given creator, in registry order.
    pub fn get_actors_by_creator(&self, creator_id: u64) -> (r: Vec<Actor>)
        ensures
            r@ == filter_creator(self.actors@, creator_id),
    {
        let ghost s = self.actors@;
        let n = self.actors.len();
        let mut out: Vec<Actor> = Vec::new();
        let mut i: usize = 0;
        proof {
            assert(s.skip(0) =~= s);
        }
        while i < n
            invariant
                i <= n,
                n == s.len(),
                self.actors@ == s,
                filter_creator(s, creator_id) == out@ + filter_creator(
                    s.skip(i as int),
                    creator_id,
                ),
            decreases n - i,
        {
            proof {
                assert(s.skip(i as int)[0] == s[i as int]);
                assert(s.skip(i as int).drop_first() =~= s.skip(i + 1));
            }
            if self.actors[i].creator_id == creator_id {
                out.push(self.actors[i].duplicate());
                proof {
                    assert(out@ + filter_creator(s.skip(i + 1), creator_id) =~= out@.drop_last()
                        + (seq![s[i as int]] + filter_creator(s.skip(i + 1), creator_id)));
                }
            }
            i += 1;
        }
        proof {
            assert(s.skip(n as int) =~= Seq::<Actor>::empty());
            assert(out@ =~= out@ + filter_creator(s.skip(n as int), creator_id));
        }
        out
    }

    /// Every actor of the given kind, in registry order.
    pub fn get_actors_by_type(&self, actor_type: ActorType) -> (r: Vec<Actor>)
        ensures
            r@ == filter_type(self.actors@, actor_type),
    {
        let ghost s = self.actors@;
        let n = self.actors.len();
        let mut out: Vec<Actor> = Vec::new();
        let mut i: usize = 0;
        proof {
            assert(s.skip(0) =~= s);
        }
        while i < n
            invariant
                i <= n,
                n == s.len(),
                self.actors@ == s,
                filter_type(s, actor_type) == out@ + filter_type(s.skip(i as int), actor_type),
            decreases n - i,
        {
            proof {
                assert(s.skip(i as int)[0] == s[i as int]);
                assert(s.skip(i as int).drop_first() =~= s.skip(i + 1));
            }
            if self.actors[i].actor_type == actor_type {
                out.push(self.actors[i].duplicate());
                proof {
                    assert(out@ + filter_type(s.skip(i + 1), actor_type) =~= out@.drop_last() + (
                    seq![s[i as int]] + filter_type(s.skip(i + 1), actor_type)));
                }
            }
            i += 1;
        }
        proof {
            assert(s.skip(n as int) =~= Seq::<Actor>::empty());
            assert(out@ =~= out@ + filter_type(s.skip(n as int), actor_type));
        }
        out
    }

    /// The Player actor of the given creator, if one is recorded.
    pub fn get_player_actor(&self, creator_id: u64) -> (r: Option<&Actor>)
        ensures
            match r {
                Some(a) => exists|k: int|
                    0 <= k < self.actors@.len() && *a == (#[trigger] self.actors@[k])
                        && a.creator_id == creator_id && a.actor_type == ActorType::Player,
                None => count_player(self.actors@, creator_id) == 0,
            },
    {
        let ghost s = self.actors@;
        let n = self.actors.len();
        let mut i: usize = 0;
        proof {
            assert(s.skip(0) =~= s);
        }
        while i < n
            invariant
                i <= n,
                n == s.len(),
                self.actors@ == s,
                count_player(s, creator_id) == count_player(s.skip(i as int), creator_id),
            decreases n - i,
        {
            proof {
                assert(s.skip(i as int)[0] == s[i as int]);
                assert(s.skip(i as int).drop_first() =~= s.skip(i + 1));
            }
            if self.actors[i].creator_id == creator_id && matches!(
                self.actors[i].actor_type,
                ActorType::Player,
            ) {
                return Some(&self.actors[i]);
            }
            i += 1;
        }
        proof {
            assert(s.skip(n as int) =~= Seq::<Actor>::empty());
        }
        None
    }

    /// Whether the quota rules let a creator instantiate an actor of a kind.
    pub fn user_can_create_actor(
        &self,
        creator_id: u64,
        creator_is_host: bool,
        actor_type: ActorType,
    ) -> (r: bool)
        ensures
            r == can_create(self.actors@, creator_id, creator_is_host, actor_type),
    {
        if matches!(actor_type, ActorType::Player) {
            return match self.get_player_actor(creator_id) {
                Some(a) => {
                    proof {
                        let k = choose|k: int|
                            0 <= k < self.actors@.len() && *a == (#[trigger] self.actors@[k])
                                && a.creator_id == creator_id && a.actor_type == ActorType::Player;
                        lemma_count_player_pos(self.actors@, creator_id, k);
                    }
                    false
                },
                None => true,
            };
        }
        if actor_type.is_create_by_host_only() && !creator_is_host {
            return false;
        }
        let ghost s = self.actors@;
        let n = self.actors.len();
        let mut cnt: usize = 0;
        let mut i: usize = 0;
        proof {
            assert(s.skip(0) =~= s);
        }
        while i < n
            invariant
                i <= n,
                cnt <= i,
                n == s.len(),
                self.actors@ == s,
                count_creator(s, creator_id) == cnt + count_creator(s.skip(i as int), creator_id),
            decreases n - i,
        {
            proof {
                assert(s.skip(i as int)[0] == s[i as int]);
                assert(s.skip(i as int).drop_first() =~= s.skip(i + 1));
            }
            if self.actors[i].creator_id == creator_id {
                cnt += 1;
            }
            i += 1;
        }
        proof {
            assert(s.skip(n as int) =~= Seq::<Actor>::empty());
        }
        cnt < MAX_ACTORS_PER_PLAYER
    }

    /// Rewrites the pose of the actor with the id; reports whether a record
    /// was found. Ownership checks belong to the caller.
    pub fn update_actor_transform(&mut self, id: i64, position: Vector3, rotation: Vector3) -> (r:
        bool)
        requires
            old(self).wf(),
        ensures
            final(self).wf(),
            r == old(self).has_actor(id),
            final(self).actor_ids_by_creator@ == old(self).actor_ids_by_creator@,
            old(self).has_actor(id) ==> final(self).actors@ == old(self).actors@.update(
                old(self).actor_index(id),
                Actor {
                    position,
                    rotation,
                    ..old(self).actor_of(id)
                },
            ),
            !old(self).has_actor(id) ==> final(self).actors@ == old(self).actors@,
    {
        let ghost s = self.actors@;
        let ghost e = self.actor_ids_by_creator@;
        let k = match self.find_actor_index(id) {
            Some(k) => k,
            None => {
                return false;
            },
        };
        proof {
            self.lemma_index_of(id, k as int);
        }
        self.actors[k].position = position;
        self.actors[k].rotation = rotation;
        proof {
            assert(self.actors@ =~= s.update(
                k as int,
                Actor { position, rotation, ..s[k as int] },
            ));
            lemma_wf_same_ids(s, self.actors@, e);
        }
        true
    }

    /// Rewrites the region of the actor with the id; reports whether a record
    /// was found. Ownership checks belong to the caller.
    pub fn set_actor_zone(&mut self, id: i64, zone: String, zone_owner: i64) -> (r: bool)
        requires
            old(self).wf(),
        ensures
            final(self).wf(),
            r == old(self).has_actor(id),
            final(self).actor_ids_by_creator@ == old(self).actor_ids_by_creator@,
            old(self).has_actor(id) ==> final(self).actors@ == old(self).actors@.update(
                old(self).actor_index(id),
                Actor {
                    zone: zone,
                    zone_owner,
                    ..old(self).actor_of(id)
                },
            ),
            !old(self).has_actor(id) ==> final(self).actors@ == old(self).actors@,
    {
        let ghost s = self.actors@;
        let ghost e = self.actor_ids_by_creator@;
        let k = match self.find_actor_index(id) {
            Some(k) => k,
            None => {
                return false;
            },
        };
        proof {
            self.lemma_index_of(id, k as int);
        }
        self.actors[k].zone = zone;
        self.actors[k].zone_owner = zone_owner;
        proof {
            assert(self.actors@[k as int].zone == zone);
            lemma_wf_same_ids(s, self.actors@, e);
            assert(self.actors@ =~= s.update(
                k as int,
                Actor { zone: self.actors@[k as int].zone, zone_owner, ..s[k as int] },
            ));
        }
        true
    }

    /// Strikes every actor of one creator, as when that peer leaves the lobby.
    pub fn remove_all_actors_by_creator(&mut self, creator_id: u64)
        requires
            old(self).wf(),
        ensures
            final(self).wf(),
            final(self).actors@ == filter_not_creator(old(self).actors@, creator_id),
            forall|c2: u64|
                c2 != creator_id ==> final(self).creator_ids(c2) == old(self).creator_ids(c2),
    {
        loop
            invariant
                self.wf(),
                filter_not_creator(self.actors@, creator_id) == filter_not_creator(
                    old(self).actors@,
                    creator_id,
                ),
                forall|c2: u64|
                    c2 != creator_id ==> self.creator_ids(c2) == old(self).creator_ids(c2),
            decreases self.actors@.len(),
        {
            match self.find_actor_of_creator(creator_id) {
                Some(id) => {
                    proof {
                        let ghost s = self.actors@;
                        let k = choose|k: int|
                            0 <= k < s.len() && (#[trigger] s[k]).id == id && s[k].creator_id
                                == creator_id;
                        self.lemma_index_of(id, k);
                        lemma_filter_not_creator_remove(s, creator_id, k);
                    }
                    self.remove_actor(id);
                },
                None => {
                    proof {
                        lemma_filter_not_creator_all(self.actors@, creator_id);
                    }
                    return ;
                },
            }
        }
    }

    /// Some actor of the creator, if one is recorded.
    fn find_actor_of_creator(&self, c: u64) -> (r: Option<i64>)
        ensures
            match r {
                Some(id) => exists|k: int|
                    0 <= k < self.actors@.len() && (#[trigger] self.actors@[k]).id == id
                        && self.actors@[k].creator_id == c,
                None => forall|k: int|
                    0 <= k < self.actors@.len() ==> (#[trigger] self.actors@[k]).creator_id != c,
            },
    {
        let n = self.actors.len();
        let mut i: usize = 0;
        while i < n
            invariant
                i <= n,
                n == self.actors@.len(),
                forall|j: int| 0 <= j < i ==> (#[trigger] self.actors@[j]).creator_id != c,
            decreases n - i,
        {
            if self.actors[i].creator_id == c {
                return Some(self.actors[i].id);
            }
            i += 1;
        }
        None
    }
}

/// Two registries with the same ids and creators pointwise share one index's
/// well-formedness.
pub proof fn lemma_wf_same_ids(s: Seq<Actor>, s2: Seq<Actor>, e: Seq<(u64, Vec<i64>)>)
    requires
        wf_parts(s, e),
        s2.len() == s.len(),
        forall|i: int|
            0 <= i < s.len() ==> (#[trigger] s2[i]).id == s[i].id && s2[i].creator_id
                == s[i].creator_id,
    ensures
        wf_parts(s2, e),
{
    assert forall|i: int, j: int|
        0 <= i < e.len() && 0 <= j < e[i].1@.len() implies owns_in(
        s2,
        e[i].0,
        #[trigger] e[i].1@[j],
    ) by {
        assert(owns_in(s, e[i].0, e[i].1@[j]));
        let w = choose|w: int|
            0 <= w < s.len() && (#[trigger] s[w]).id == e[i].1@[j] && s[w].creator_id == e[i].0;
        assert(s2[w].id == e[i].1@[j] && s2[w].creator_id == e[i].0);
    }
}

} // verus!

verus! {

/// The lookup result is empty or one entry's id list.
pub proof fn lemma_lookup_is_entry(e: Seq<(u64, Vec<i64>)>, c: u64)
    ensures
        ids_lookup(e, c) == Seq::<i64>::empty() || exists|i: int|
            0 <= i < e.len() && (#[trigger] e[i]).0 == c && ids_lookup(e, c) == e[i].1@,
    decreases e.len(),
{
    if e.len() > 0 && e[0].0 != c {
        lemma_lookup_is_entry(e.drop_first(), c);
        if ids_lookup(e, c) != Seq::<i64>::empty() {
            let i = choose|i: int|
                0 <= i < e.drop_first().len() && (#[trigger] e.drop_first()[i]).0 == c
                    && ids_lookup(e.drop_first(), c) == e.drop_first()[i].1@;
            assert(e[i + 1].0 == c && ids_lookup(e, c) == e[i + 1].1@);
        }
    }
}

/// Index consistency: an id is recorded for a creator exactly when that
/// creator owns the actor carrying it.
pub proof fn lemma_index_consistency(m: &ActorManager, c: u64, id: i64)
    requires
        m.wf(),
    ensures
        m.creator_ids(c).contains(id) <==> m.owns(c, id),
{
    if m.creator_ids(c).contains(id) {
        lemma_lookup_is_entry(m.actor_ids_by_creator@, c);
        let i = choose|i: int|
            0 <= i < m.actor_ids_by_creator@.len() && (#[trigger] m.actor_ids_by_creator@[i]).0
                == c && ids_lookup(m.actor_ids_by_creator@, c) == m.actor_ids_by_creator@[i].1@;
        let j = choose|j: int|
            0 <= j < m.actor_ids_by_creator@[i].1@.len() && m.actor_ids_by_creator@[i].1@[j] == id;
        assert(owns_in(m.actors@, c, id));
    }
    if m.owns(c, id) {
        let k = choose|k: int|
            0 <= k < m.actors@.len() && (#[trigger] m.actors@[k]).id == id
                && m.actors@[k].creator_id == c;
        assert(m.creator_ids(m.actors@[k].creator_id).contains(m.actors@[k].id));
    }
}

/// All creators within quota: at most the cap of actors, at most one Player.
pub open spec fn quota_ok(s: Seq<Actor>) -> bool {
    forall|c: u64|
        #![trigger count_creator(s, c)]
        #![trigger count_player(s, c)]
        count_creator(s, c) <= MAX_ACTORS_PER_PLAYER && count_player(s, c) <= 1
}

/// Actor quota: an insert that passed the admission rules keeps every
/// creator at or below the cap, with at most one Player actor each. The
/// Player admission rule checks only that no Player is recorded, so a Player
/// insert is covered here only below the cap.
pub proof fn lemma_spawn_quota(pre: Seq<Actor>, post: Seq<Actor>, a: Actor)
    requires
        post == pre.push(a),
        can_create(pre, a.creator_id, true, a.actor_type),
        quota_ok(pre),
        a.actor_type == ActorType::Player ==> count_creator(pre, a.creator_id)
            < MAX_ACTORS_PER_PLAYER,
    ensures
        quota_ok(post),
{
    assert forall|c: u64| count_creator(post, c) <= MAX_ACTORS_PER_PLAYER && count_player(post, c)
        <= 1 by {
        lemma_filter_creator_push(pre, c, a);
        lemma_count_player_push(pre, c, a);
        if c == a.creator_id {
            if a.actor_type == ActorType::Player {
                assert(count_player(pre, c) == 0);
                lemma_player_counts_toward_creator(pre, c);
            }
        }
    }
}

/// A creator's player count never exceeds its actor count.
proof fn lemma_player_counts_toward_creator(s: Seq<Actor>, c: u64)
    ensures
        count_player(s, c) <= count_creator(s, c),
    decreases s.len(),
{
    if s.len() > 0 {
        lemma_player_counts_toward_creator(s.drop_first(), c);
    }
}

} // verus!

verus! {

/// A sequence of user ids with one id struck out.
pub open spec fn ids_without_u64(s: Seq<u64>, id: u64) -> Seq<u64>
    decreases s.len(),
{
    if s.len() == 0 {
        Seq::empty()
    } else if s[0] == id {
        ids_without_u64(s.drop_first(), id)
    } else {
        seq![s[0]] + ids_without_u64(s.drop_first(), id)
    }
}

} // verus!
