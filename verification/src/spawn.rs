//! The spawn manager: timed and probabilistic creation of host-owned
//! environmental actors, per-kind count caps and lifetimes, and expiry.
//!
//! Time is carried as milliseconds on the host's clock. Randomness comes
//! from thin draws over the rand crate; every contract here holds for every
//! outcome of every draw. Picking a world position involves float arithmetic
//! the verified core does not do, so a tick yields spawn plans — kind plus
//! the picked base point — and the caller hands each finished position back
//! to `spawn_planned`.

use crate::actor::{Actor, ActorManager, ActorType};
use crate::external::{rand_below, rand_i31, rand_millionths};
use crate::packet::OutgoingP2pPacketRequest;
use crate::variant::Vector3;
use vstd::prelude::*;

verus! {

broadcast use vstd::std_specs::vec::axiom_vec_index_decreases, vstd::std_specs::vec::axiom_spec_len;

/// One physics frame is 1/60 s; lifetimes are given in frames by the game.
/// Milliseconds per ten-second scheduling step.
pub const HOST_SPAWN_PERIOD_MS: u64 = 10000;

/// Milliseconds per ambient-bird scheduling step.
pub const AMBIENT_SPAWN_PERIOD_MS: u64 = 10000;

/// Milliseconds per metal scheduling step.
pub const METAL_SPAWN_PERIOD_MS: u64 = 20000;

/// The most actors of each kind the game logic may keep alive at once.
pub open spec fn spawn_cap(t: ActorType) -> nat {
    match t {
        ActorType::Raincloud => 2,
        ActorType::FishSpawn => 16,
        ActorType::FishSpawnAlien => 4,
        ActorType::MetalSpawn => 8,
        ActorType::VoidPortal => 1,
        ActorType::AmbientBird => 9,
        _ => usize::MAX as nat,
    }
}

/// The lifetime of each kind in milliseconds (frames over 60, in wall time);
/// None lives forever.
pub open spec fn spawn_lifetime_ms(t: ActorType) -> Option<u64> {
    match t {
        ActorType::Raincloud => Some(541666u64),  // 32500 frames
        ActorType::FishSpawn => Some(80000u64),  // 4800 frames
        ActorType::FishSpawnAlien => Some(240000u64),  // 14400 frames
        ActorType::MetalSpawn => Some(166666u64),  // 10000 frames
        ActorType::VoidPortal => Some(600000u64),  // 36000 frames
        _ => None,
    }
}

/// The recorded lifetime of one kind.
pub fn lifetime_of(t: ActorType) -> (r: Option<u64>)
    ensures
        r == spawn_lifetime_ms(t),
{
    match t {
        ActorType::Raincloud => Some(541666),
        ActorType::FishSpawn => Some(80000),
        ActorType::FishSpawnAlien => Some(240000),
        ActorType::MetalSpawn => Some(166666),
        ActorType::VoidPortal => Some(600000),
        _ => None,
    }
}

/// The recorded cap of one kind, clamped to usize.
pub fn cap_of(t: ActorType) -> (r: usize)
    ensures
        r == spawn_cap(t),
{
    match t {
        ActorType::Raincloud => 2,
        ActorType::FishSpawn => 16,
        ActorType::FishSpawnAlien => 4,
        ActorType::MetalSpawn => 8,
        ActorType::VoidPortal => 1,
        ActorType::AmbientBird => 9,
        _ => usize::MAX,
    }
}

/// The ids recorded under one kind: first matching entry, else none.
pub open spec fn tspawns_lookup(entries: Seq<(ActorType, Vec<i64>)>, t: ActorType) -> Seq<i64>
    decreases entries.len(),
{
    if entries.len() == 0 {
        Seq::empty()
    } else if entries[0].0 == t {
        entries[0].1@
    } else {
        tspawns_lookup(entries.drop_first(), t)
    }
}

/// How many plans of one kind a tick produced.
pub open spec fn count_plans(s: Seq<SpawnPlan>, t: ActorType) -> nat
    decreases s.len(),
{
    if s.len() == 0 {
        0
    } else {
        count_plans(s.drop_first(), t) + (if s[0].actor_type == t {
            1nat
        } else {
            0nat
        })
    }
}

/// One more plan raises exactly its own kind's count.
pub proof fn lemma_count_plans_push(s: Seq<SpawnPlan>, p: SpawnPlan, t: ActorType)
    ensures
        count_plans(s.push(p), t) == count_plans(s, t) + (if p.actor_type == t {
            1nat
        } else {
            0nat
        }),
    decreases s.len(),
{
    if s.len() == 0 {
        assert(s.push(p)[0] == p);
        assert(s.push(p).drop_first() =~= s);
    } else {
        assert(s.push(p)[0] == s[0]);
        assert(s.push(p).drop_first() =~= s.drop_first().push(p));
        lemma_count_plans_push(s.drop_first(), p, t);
    }
}

/// A sequence with no plan of the kind counts zero of it.
pub proof fn lemma_count_plans_zero(s: Seq<SpawnPlan>, t: ActorType)
    requires
        forall|j: int| 0 <= j < s.len() ==> (#[trigger] s[j]).actor_type != t,
    ensures
        count_plans(s, t) == 0,
    decreases s.len(),
{
    if s.len() > 0 {
        lemma_count_plans_zero(s.drop_first(), t);
    }
}

/// A plan the tick may emit: a game-rolled or scheduled kind whose recorded
/// count is still under its cap.
pub open spec fn plan_ok(g: Seq<(ActorType, Vec<i64>)>, p: SpawnPlan) -> bool {
    &&& (p.actor_type == ActorType::FishSpawn || p.actor_type == ActorType::FishSpawnAlien
        || p.actor_type == ActorType::Raincloud || p.actor_type == ActorType::VoidPortal
        || p.actor_type == ActorType::AmbientBird || p.actor_type == ActorType::MetalSpawn)
    &&& tspawns_lookup(g, p.actor_type).len() < spawn_cap(p.actor_type)
}

/// The points of one named group: first matching entry, else none.
pub open spec fn group_points(points: Seq<(String, Vec<Vector3>)>, name: Seq<char>) -> Seq<Vector3>
    decreases points.len(),
{
    if points.len() == 0 {
        Seq::empty()
    } else if points[0].0@ == name {
        points[0].1@
    } else {
        group_points(points.drop_first(), name)
    }
}

/// The deadline recorded for one id, if any.
pub open spec fn timeout_lookup(entries: Seq<(i64, u64)>, id: i64) -> Option<u64>
    decreases entries.len(),
{
    if entries.len() == 0 {
        None
    } else if entries[0].0 == id {
        Some(entries[0].1)
    } else {
        timeout_lookup(entries.drop_first(), id)
    }
}

/// One planned spawn: the kind to create, and the picked base point where
/// the groups provide one (a raincloud draws its own area position outside).
#[derive(Debug)]
pub struct SpawnPlan {
    pub actor_type: ActorType,
    pub base: Option<Vector3>,
}

/// The spawn manager's state.
pub struct SpawnManager {
    pub game_spawns: Vec<(ActorType, Vec<i64>)>,
    pub user_spawns: Vec<(ActorType, Vec<i64>)>,
    pub spawn_timeouts: Vec<(i64, u64)>,
    pub spawn_points: Vec<(String, Vec<Vector3>)>,
    pub next_host_spawn: u64,
    pub next_ambient_spawn: u64,
    pub next_metal_spawn: u64,
    pub alien_cooldown: u64,
    pub rain_chance_permille: u32,
}

impl SpawnManager {
    /// The ids alive under one kind by the game's own doing.
    pub open spec fn game_ids(&self, t: ActorType) -> Seq<i64> {
        tspawns_lookup(self.game_spawns@, t)
    }

    /// The ids alive under one kind by user command.
    pub open spec fn user_ids(&self, t: ActorType) -> Seq<i64> {
        tspawns_lookup(self.user_spawns@, t)
    }

    /// The manager's invariant: spawn-list keys are unique, every game list
    /// respects its kind's cap, every user list holds at most one id, and
    /// the rain chance stays within one (a thousand permille).
    pub open spec fn wf(&self) -> bool {
        let g = self.game_spawns@;
        let u = self.user_spawns@;
        &&& forall|i: int, j: int| 0 <= i < j < g.len() ==> g[i].0 != g[j].0
        &&& forall|i: int, j: int| 0 <= i < j < u.len() ==> u[i].0 != u[j].0
        &&& forall|i: int| 0 <= i < g.len() ==> (#[trigger] g[i]).1@.len() <= spawn_cap(g[i].0)
        &&& forall|i: int| 0 <= i < u.len() ==> (#[trigger] u[i]).1@.len() <= 1
        &&& self.rain_chance_permille <= 1000
    }

    /// A fresh manager: nothing spawned, the first rolls scheduled one or two
    /// periods out, the alien roll cooled down, and a starting rain chance.
    pub fn new(
        spawn_points: Vec<(String, Vec<Vector3>)>,
        now_ms: u64,
        initial_rain_permille: u32,
    ) -> (m: SpawnManager)
        requires
            now_ms < 0xf000000000000000,
            initial_rain_permille <= 1000,
        ensures
            m.wf(),
            m.game_spawns@ == Seq::<(ActorType, Vec<i64>)>::empty(),
            m.user_spawns@ == Seq::<(ActorType, Vec<i64>)>::empty(),
            m.spawn_timeouts@ == Seq::<(i64, u64)>::empty(),
            m.spawn_points@ == spawn_points@,
            m.next_host_spawn == now_ms + HOST_SPAWN_PERIOD_MS,
            m.next_ambient_spawn == now_ms + AMBIENT_SPAWN_PERIOD_MS,
            m.next_metal_spawn == now_ms + METAL_SPAWN_PERIOD_MS,
            m.alien_cooldown == 16,
            m.rain_chance_permille == initial_rain_permille,
    {
        let game_spawns: Vec<(ActorType, Vec<i64>)> = Vec::new();
        let user_spawns: Vec<(ActorType, Vec<i64>)> = Vec::new();
        let spawn_timeouts: Vec<(i64, u64)> = Vec::new();
        proof {
            assert(game_spawns@ =~= Seq::<(ActorType, Vec<i64>)>::empty());
            assert(user_spawns@ =~= Seq::<(ActorType, Vec<i64>)>::empty());
            assert(spawn_timeouts@ =~= Seq::<(i64, u64)>::empty());
        }
        SpawnManager {
            game_spawns,
            user_spawns,
            spawn_timeouts,
            spawn_points,
            next_host_spawn: now_ms + HOST_SPAWN_PERIOD_MS,
            next_ambient_spawn: now_ms + AMBIENT_SPAWN_PERIOD_MS,
            next_metal_spawn: now_ms + METAL_SPAWN_PERIOD_MS,
            alien_cooldown: 16,
            rain_chance_permille: initial_rain_permille,
        }
    }

    /// Whether the game may create one more actor of the kind.
    pub fn can_spawn_game_actor(&self, actor_type: ActorType) -> (r: bool)
        ensures
            r == (self.game_ids(actor_type).len() < spawn_cap(actor_type)),
    {
        let n = self.game_spawns.len();
        let mut i: usize = 0;
        proof {
            assert(self.game_spawns@.skip(0) =~= self.game_spawns@);
        }
        while i < n
            invariant
                i <= n,
                n == self.game_spawns@.len(),
                tspawns_lookup(self.game_spawns@, actor_type) == tspawns_lookup(
                    self.game_spawns@.skip(i as int),
                    actor_type,
                ),
            decreases n - i,
        {
            proof {
                assert(self.game_spawns@.skip(i as int)[0] == self.game_spawns@[i as int]);
                assert(self.game_spawns@.skip(i as int).drop_first() =~= self.game_spawns@.skip(
                    i + 1,
                ));
            }
            if matches_type(self.game_spawns[i].0, actor_type) {
                proof {
                    assert(tspawns_lookup(self.game_spawns@.skip(i as int), actor_type)
                        == self.game_spawns@[i as int].1@);
                }
                return self.game_spawns[i].1.len() < cap_of(actor_type);
            }
            i += 1;
        }
        proof {
            assert(self.game_spawns@.skip(n as int) =~= Seq::<(ActorType, Vec<i64>)>::empty());
        }
        true
    }

    /// Whether a user command may create an actor of the kind: only a
    /// raincloud, and only while the user raincloud slot is empty.
    pub fn can_spawn_user_actor(&self, actor_type: ActorType) -> (r: bool)
        ensures
            r == (actor_type == ActorType::Raincloud && self.user_ids(
                ActorType::Raincloud,
            ).len() == 0),
    {
        if !matches_type(actor_type, ActorType::Raincloud) {
            return false;
        }
        let n = self.user_spawns.len();
        let mut i: usize = 0;
        proof {
            assert(self.user_spawns@.skip(0) =~= self.user_spawns@);
        }
        while i < n
            invariant
                i <= n,
                n == self.user_spawns@.len(),
                actor_type == ActorType::Raincloud,
                tspawns_lookup(self.user_spawns@, ActorType::Raincloud) == tspawns_lookup(
                    self.user_spawns@.skip(i as int),
                    ActorType::Raincloud,
                ),
            decreases n - i,
        {
            proof {
                assert(self.user_spawns@.skip(i as int)[0] == self.user_spawns@[i as int]);
                assert(self.user_spawns@.skip(i as int).drop_first() =~= self.user_spawns@.skip(
                    i + 1,
                ));
            }
            if matches_type(self.user_spawns[i].0, ActorType::Raincloud) {
                proof {
                    assert(tspawns_lookup(self.user_spawns@.skip(i as int), ActorType::Raincloud)
                        == self.user_spawns@[i as int].1@);
                }
                return self.user_spawns[i].1.len() == 0;
            }
            i += 1;
        }
        proof {
            assert(self.user_spawns@.skip(n as int) =~= Seq::<(ActorType, Vec<i64>)>::empty());
        }
        true
    }

    /// The deadline of the first pending user spawn of one kind, if any.
    pub open spec fn user_deadline_spec(&self, t: ActorType) -> Option<u64> {
        let ids = tspawns_lookup(self.user_spawns@, t);
        if ids.len() > 0 {
            timeout_lookup(self.spawn_timeouts@, ids[0])
        } else {
            None
        }
    }

    /// The deadline of the pending user spawn of one kind, if one is alive.
    pub fn next_user_spawn_deadline(&self, actor_type: ActorType) -> (r: Option<u64>)
        ensures
            r == self.user_deadline_spec(actor_type),
    {
        let n = self.user_spawns.len();
        let mut i: usize = 0;
        proof {
            assert(self.user_spawns@.skip(0) =~= self.user_spawns@);
        }
        while i < n
            invariant
                i <= n,
                n == self.user_spawns@.len(),
                tspawns_lookup(self.user_spawns@, actor_type) == tspawns_lookup(
                    self.user_spawns@.skip(i as int),
                    actor_type,
                ),
            decreases n - i,
        {
            proof {
                assert(self.user_spawns@.skip(i as int)[0] == self.user_spawns@[i as int]);
                assert(self.user_spawns@.skip(i as int).drop_first() =~= self.user_spawns@.skip(
                    i + 1,
                ));
            }
            if matches_type(self.user_spawns[i].0, actor_type) {
                proof {
                    assert(tspawns_lookup(self.user_spawns@.skip(i as int), actor_type)
                        == self.user_spawns@[i as int].1@);
                }
                if self.user_spawns[i].1.len() > 0 {
                    let id = self.user_spawns[i].1[0];
                    return self.timeout_of(id);
                }
                return None;
            }
            i += 1;
        }
        proof {
            assert(self.user_spawns@.skip(n as int) =~= Seq::<(ActorType, Vec<i64>)>::empty());
        }
        None
    }

    /// The recorded deadline of one id.
    pub fn timeout_of(&self, id: i64) -> (r: Option<u64>)
        ensures
            r == timeout_lookup(self.spawn_timeouts@, id),
    {
        let n = self.spawn_timeouts.len();
        let mut i: usize = 0;
        proof {
            assert(self.spawn_timeouts@.skip(0) =~= self.spawn_timeouts@);
        }
        while i < n
            invariant
                i <= n,
                n == self.spawn_timeouts@.len(),
                timeout_lookup(self.spawn_timeouts@, id) == timeout_lookup(
                    self.spawn_timeouts@.skip(i as int),
                    id,
                ),
            decreases n - i,
        {
            proof {
                assert(self.spawn_timeouts@.skip(i as int)[0] == self.spawn_timeouts@[i as int]);
                assert(self.spawn_timeouts@.skip(i as int).drop_first()
                    =~= self.spawn_timeouts@.skip(i + 1));
            }
            if self.spawn_timeouts[i].0 == id {
                return Some(self.spawn_timeouts[i].1);
            }
            i += 1;
        }
        proof {
            assert(self.spawn_timeouts@.skip(n as int) =~= Seq::<(i64, u64)>::empty());
        }
        None
    }

    /// The ids whose deadline has passed.
    pub fn get_actors_need_despawn(&self, now_ms: u64) -> (r: Vec<i64>)
        ensures
            r@ == expired_ids(self.spawn_timeouts@, now_ms),
    {
        let ghost w = self.spawn_timeouts@;
        let n = self.spawn_timeouts.len();
        let mut out: Vec<i64> = Vec::new();
        let mut i: usize = 0;
        proof {
            assert(w.skip(0) =~= w);
        }
        while i < n
            invariant
                i <= n,
                n == w.len(),
                self.spawn_timeouts@ == w,
                expired_ids(w, now_ms) == out@ + expired_ids(w.skip(i as int), now_ms),
            decreases n - i,
        {
            proof {
                assert(w.skip(i as int)[0] == w[i as int]);
                assert(w.skip(i as int).drop_first() =~= w.skip(i + 1));
            }
            if self.spawn_timeouts[i].1 < now_ms {
                out.push(self.spawn_timeouts[i].0);
                proof {
                    assert(out@ + expired_ids(w.skip(i + 1), now_ms) =~= out@.drop_last() + (seq![
                        w[i as int].0,
                    ] + expired_ids(w.skip(i + 1), now_ms)));
                }
            }
            i += 1;
        }
        proof {
            assert(w.skip(n as int) =~= Seq::<(i64, u64)>::empty());
            assert(out@ =~= out@ + expired_ids(w.skip(n as int), now_ms));
        }
        out
    }
}

/// Compares two actor kinds.
pub fn matches_type(a: ActorType, b: ActorType) -> (r: bool)
    ensures
        r == (a == b),
{
    a == b
}

/// The ids of entries whose deadline lies before `now`, in record order.
pub open spec fn expired_ids(entries: Seq<(i64, u64)>, now: u64) -> Seq<i64>
    decreases entries.len(),
{
    if entries.len() == 0 {
        Seq::empty()
    } else if entries[0].1 < now {
        seq![entries[0].0] + expired_ids(entries.drop_first(), now)
    } else {
        expired_ids(entries.drop_first(), now)
    }
}

} // verus!

verus! {

/// With pairwise distinct kinds, the lookup yields the entry carrying the kind.
proof fn lemma_tlookup_at_index(entries: Seq<(ActorType, Vec<i64>)>, i: int)
    requires
        0 <= i < entries.len(),
        forall|p: int, q: int| 0 <= p < q < entries.len() ==> entries[p].0 != entries[q].0,
    ensures
        tspawns_lookup(entries, entries[i].0) == entries[i].1@,
    decreases entries.len(),
{
    if i > 0 {
        assert(entries[0].0 != entries[i].0);
        assert(entries.drop_first()[i - 1] == entries[i]);
        lemma_tlookup_at_index(entries.drop_first(), i - 1);
    }
}

/// A kind under no entry looks up empty.
proof fn lemma_tlookup_missing(entries: Seq<(ActorType, Vec<i64>)>, t: ActorType)
    requires
        forall|p: int| 0 <= p < entries.len() ==> (#[trigger] entries[p]).0 != t,
    ensures
        tspawns_lookup(entries, t) == Seq::<i64>::empty(),
    decreases entries.len(),
{
    if entries.len() > 0 {
        lemma_tlookup_missing(entries.drop_first(), t);
    }
}

/// Replacing one entry changes only its own kind's lookup.
proof fn lemma_tlookup_update(entries: Seq<(ActorType, Vec<i64>)>, i: int, v: Vec<i64>)
    requires
        0 <= i < entries.len(),
        forall|p: int, q: int| 0 <= p < q < entries.len() ==> entries[p].0 != entries[q].0,
    ensures
        tspawns_lookup(entries.update(i, (entries[i].0, v)), entries[i].0) == v@,
        forall|t2: ActorType|
            t2 != entries[i].0 ==> tspawns_lookup(entries.update(i, (entries[i].0, v)), t2)
                == tspawns_lookup(entries, t2),
    decreases entries.len(),
{
    let e2 = entries.update(i, (entries[i].0, v));
    if i == 0 {
        assert(e2[0] == (entries[0].0, v));
        assert(e2.drop_first() =~= entries.drop_first());
        assert forall|t2: ActorType| t2 != entries[i].0 implies tspawns_lookup(e2, t2)
            == tspawns_lookup(entries, t2) by {
            assert(e2[0].0 == entries[0].0);
        }
    } else {
        assert(e2[0] == entries[0]);
        assert(e2.drop_first() =~= entries.drop_first().update(i - 1, (entries[i].0, v)));
        assert(entries.drop_first()[i - 1] == entries[i]);
        lemma_tlookup_update(entries.drop_first(), i - 1, v);
        assert(entries[0].0 != entries[i].0);
        assert(tspawns_lookup(e2, entries[i].0) == tspawns_lookup(e2.drop_first(), entries[i].0));
        assert forall|t2: ActorType| t2 != entries[i].0 implies tspawns_lookup(e2, t2)
            == tspawns_lookup(entries, t2) by {
            if entries[0].0 == t2 {
            } else {
                assert(tspawns_lookup(e2, t2) == tspawns_lookup(e2.drop_first(), t2));
                assert(tspawns_lookup(entries, t2) == tspawns_lookup(entries.drop_first(), t2));
            }
        }
    }
}

/// Appending an entry under a fresh kind adds only that kind's lookup.
proof fn lemma_tlookup_push(entries: Seq<(ActorType, Vec<i64>)>, t: ActorType, v: Vec<i64>)
    requires
        forall|p: int| 0 <= p < entries.len() ==> (#[trigger] entries[p]).0 != t,
    ensures
        tspawns_lookup(entries.push((t, v)), t) == v@,
        forall|t2: ActorType|
            t2 != t ==> tspawns_lookup(entries.push((t, v)), t2) == tspawns_lookup(entries, t2),
    decreases entries.len(),
{
    let e2 = entries.push((t, v));
    if entries.len() == 0 {
        assert(e2[0] == (t, v));
        assert(e2.drop_first() =~= entries);
        assert forall|t2: ActorType| t2 != t implies tspawns_lookup(e2, t2) == tspawns_lookup(
            entries,
            t2,
        ) by {
            assert(tspawns_lookup(e2, t2) == tspawns_lookup(entries, t2));
        }
    } else {
        assert(e2[0] == entries[0]);
        assert(e2.drop_first() =~= entries.drop_first().push((t, v)));
        lemma_tlookup_push(entries.drop_first(), t, v);
        assert(entries[0].0 != t);
        assert(tspawns_lookup(e2, t) == tspawns_lookup(e2.drop_first(), t));
        assert forall|t2: ActorType| t2 != t implies tspawns_lookup(e2, t2) == tspawns_lookup(
            entries,
            t2,
        ) by {
            if entries[0].0 == t2 {
            } else {
                assert(tspawns_lookup(e2, t2) == tspawns_lookup(e2.drop_first(), t2));
                assert(tspawns_lookup(entries, t2) == tspawns_lookup(entries.drop_first(), t2));
            }
        }
    }
}

impl SpawnManager {
    /// Records a freshly spawned game actor under its kind and, when the kind
    /// expires, schedules its removal.
    fn record_game_spawn(&mut self, actor_type: ActorType, id: i64, now_ms: u64)
        requires
            old(self).wf(),
            old(self).game_ids(actor_type).len() < spawn_cap(actor_type),
            now_ms < 0xf000000000000000,
        ensures
            final(self).wf(),
            final(self).game_ids(actor_type) == old(self).game_ids(actor_type).push(id),
            forall|t2: ActorType|
                t2 != actor_type ==> final(self).game_ids(t2) == old(self).game_ids(t2),
            final(self).user_spawns@ == old(self).user_spawns@,
            final(self).next_host_spawn == old(self).next_host_spawn,
            final(self).next_ambient_spawn == old(self).next_ambient_spawn,
            final(self).next_metal_spawn == old(self).next_metal_spawn,
            (match spawn_lifetime_ms(actor_type) {
                Some(life) => final(self).spawn_timeouts@ == old(self).spawn_timeouts@.push(
                    (id, (now_ms + life) as u64),
                ),
                None => final(self).spawn_timeouts@ == old(self).spawn_timeouts@,
            }),
    {
        let ghost e = self.game_spawns@;
        match find_type_entry(&self.game_spawns, actor_type) {
            Some(i) => {
                proof {
                    lemma_tlookup_at_index(e, i as int);
                }
                self.game_spawns[i].1.push(id);
                proof {
                    let v2 = self.game_spawns@[i as int].1;
                    assert(v2@ == e[i as int].1@.push(id));
                    assert(self.game_spawns@ =~= e.update(i as int, (actor_type, v2)));
                    lemma_tlookup_update(e, i as int, v2);
                }
            },
            None => {
                proof {
                    lemma_tlookup_missing(e, actor_type);
                }
                let mut ids: Vec<i64> = Vec::new();
                ids.push(id);
                self.game_spawns.push((actor_type, ids));
                proof {
                    let v2 = self.game_spawns@[e.len() as int].1;
                    assert(v2@ =~= seq![id]);
                    assert(self.game_spawns@ =~= e.push((actor_type, v2)));
                    lemma_tlookup_push(e, actor_type, v2);
                    assert(tspawns_lookup(e, actor_type).push(id) =~= v2@);
                    assert(self.game_spawns@.take(e.len() as int) =~= e);
                }
            },
        }
        match lifetime_of(actor_type) {
            Some(life) => {
                self.spawn_timeouts.push((id, now_ms + life));
            },
            None => {},
        }
        proof {
            lemma_wf_after_record(old(self).game_spawns@, self.game_spawns@, actor_type, id);
        }
    }
}

/// The position of the entry recording one kind, if any.
fn find_type_entry(entries: &Vec<(ActorType, Vec<i64>)>, t: ActorType) -> (r: Option<usize>)
    ensures
        match r {
            Some(i) => i < entries@.len() && entries@[i as int].0 == t,
            None => forall|p: int| 0 <= p < entries@.len() ==> (#[trigger] entries@[p]).0 != t,
        },
{
    let n = entries.len();
    let mut i: usize = 0;
    while i < n
        invariant
            i <= n,
            n == entries@.len(),
            forall|p: int| 0 <= p < i ==> (#[trigger] entries@[p]).0 != t,
        decreases n - i,
    {
        if matches_type(entries[i].0, t) {
            return Some(i);
        }
        i += 1;
    }
    None
}

/// The spawn-entry parts of the manager invariant.
pub open spec fn wf_spawn_entries(g: Seq<(ActorType, Vec<i64>)>) -> bool {
    &&& forall|i: int, j: int| 0 <= i < j < g.len() ==> g[i].0 != g[j].0
    &&& forall|i: int| 0 <= i < g.len() ==> (#[trigger] g[i]).1@.len() <= spawn_cap(g[i].0)
}

/// Recording one id under a kind below its cap keeps the entries well formed.
proof fn lemma_wf_after_record(
    g: Seq<(ActorType, Vec<i64>)>,
    g2: Seq<(ActorType, Vec<i64>)>,
    t: ActorType,
    id: i64,
)
    requires
        wf_spawn_entries(g),
        tspawns_lookup(g, t).len() < spawn_cap(t),
        (exists|i: int|
            0 <= i < g.len() && g[i].0 == t && g2 == g.update(
                i,
                (t, g2[i].1),
            ) && g2[i].1@ == g[i].1@.push(id)) || ((forall|p: int|
            0 <= p < g.len() ==> (#[trigger] g[p]).0 != t) && g2.len() == g.len() + 1 && g2.take(
            g.len() as int,
        ) == g && g2.last().0 == t && g2.last().1@ == seq![id]),
    ensures
        wf_spawn_entries(g2),
{
    if exists|i: int|
        0 <= i < g.len() && g[i].0 == t && g2 == g.update(i, (t, g2[i].1)) && g2[i].1@
            == g[i].1@.push(id) {
        let i = choose|i: int|
            0 <= i < g.len() && g[i].0 == t && g2 == g.update(i, (t, g2[i].1)) && g2[i].1@
                == g[i].1@.push(id);
        lemma_tlookup_at_index(g, i);
        assert forall|p: int, q: int| 0 <= p < q < g2.len() implies g2[p].0 != g2[q].0 by {
            assert(g2[p].0 == g[p].0 && g2[q].0 == g[q].0);
        }
        assert forall|p: int| 0 <= p < g2.len() implies (#[trigger] g2[p]).1@.len() <= spawn_cap(
            g2[p].0,
        ) by {
            if p != i {
                assert(g2[p] == g[p]);
            }
        }
    } else {
        assert forall|p: int, q: int| 0 <= p < q < g2.len() implies g2[p].0 != g2[q].0 by {
            assert(g2.take(g.len() as int)[p] == g2[p] || p == g.len());
            if q < g.len() {
                assert(g2.take(g.len() as int)[q] == g2[q]);
                assert(g2[p] == g[p] && g2[q] == g[q]);
            } else {
                assert(g2.take(g.len() as int)[p] == g2[p]);
                assert(g2[p] == g[p]);
                assert(g2[q] == g2.last());
            }
        }
        assert forall|p: int| 0 <= p < g2.len() implies (#[trigger] g2[p]).1@.len() <= spawn_cap(
            g2[p].0,
        ) by {
            if p < g.len() {
                assert(g2.take(g.len() as int)[p] == g2[p]);
                assert(g2[p] == g[p]);
            } else {
                assert(g2[p] == g2.last());
            }
        }
    }
}

} // verus!

verus! {

impl SpawnManager {
    /// A uniformly drawn point of one named group: whatever the draw, the
    /// point belongs to the named group, and a present, non-empty group (of
    /// fewer than 2^32 points) always yields one.
    pub fn random_spawn_point(&self, group: &str) -> (r: Option<Vector3>)
        ensures
            r matches Some(p) ==> group_points(self.spawn_points@, group@).contains(p),
            0 < group_points(self.spawn_points@, group@).len() <= 0xffffffff ==> r is Some,
    {
        let ghost w = self.spawn_points@;
        let n = self.spawn_points.len();
        let mut i: usize = 0;
        proof {
            assert(w.skip(0) =~= w);
        }
        while i < n
            invariant
                i <= n,
                n == w.len(),
                self.spawn_points@ == w,
                group_points(w, group@) == group_points(w.skip(i as int), group@),
            decreases n - i,
        {
            proof {
                assert(w.skip(i as int)[0] == w[i as int]);
                assert(w.skip(i as int).drop_first() =~= w.skip(i + 1));
            }
            if crate::external::str_eq(self.spawn_points[i].0.as_str(), group) {
                proof {
                    assert(group_points(w.skip(i as int), group@) == w[i as int].1@);
                }
                let len = self.spawn_points[i].1.len();
                if len == 0 {
                    return None;
                }
                if len > 0xffffffff {
                    return None;
                }
                let idx = rand_below(#[verifier::truncate] (len as u32));
                return Some(self.spawn_points[i].1[idx as usize]);
            }
            i += 1;
        }
        proof {
            assert(w.skip(n as int) =~= Seq::<(String, Vec<Vector3>)>::empty());
        }
        None
    }

    /// Rolls which game-owned kind, if any, this period spawns, updating the
    /// alien cooldown and the rain chance as the game does. Whatever the
    /// draws, the result is one of the five game-rolled kinds or Unknown.
    pub fn roll_spawn_type(&mut self, actors: &ActorManager) -> (t: ActorType)
        requires
            old(self).wf(),
        ensures
            final(self).wf(),
            t == ActorType::FishSpawn || t == ActorType::Unknown || t == ActorType::FishSpawnAlien
                || t == ActorType::Raincloud || t == ActorType::VoidPortal,
            final(self).game_spawns@ == old(self).game_spawns@,
            final(self).user_spawns@ == old(self).user_spawns@,
            final(self).spawn_timeouts@ == old(self).spawn_timeouts@,
            final(self).spawn_points@ == old(self).spawn_points@,
            final(self).next_host_spawn == old(self).next_host_spawn,
            final(self).next_ambient_spawn == old(self).next_ambient_spawn,
            final(self).next_metal_spawn == old(self).next_metal_spawn,
            // An alien roll demands a clear sky and a spent cooldown, and
            // rewinds the cooldown; otherwise the cooldown just ticks down.
            t == ActorType::FishSpawnAlien ==> final(self).alien_cooldown == 16
                && crate::actor::filter_type(actors.actors@, ActorType::FishSpawnAlien).len() == 0
                && old(self).alien_cooldown <= 1,
            final(self).alien_cooldown == 16 || final(self).alien_cooldown == (
            if old(self).alien_cooldown > 0 {
                (old(self).alien_cooldown - 1) as u64
            } else {
                0u64
            }),
            // A raincloud roll spends the accumulated chance; otherwise the
            // chance stays or creeps up by one permille.
            t == ActorType::Raincloud ==> final(self).rain_chance_permille == 0,
            final(self).rain_chance_permille == 0 || final(self).rain_chance_permille == old(
                self,
            ).rain_chance_permille || final(self).rain_chance_permille == old(
                self,
            ).rain_chance_permille + 1,
    {
        let mut t = if rand_i31() % 2 == 0 {
            ActorType::FishSpawn
        } else {
            ActorType::Unknown
        };
        if self.alien_cooldown > 0 {
            self.alien_cooldown = self.alien_cooldown - 1;
        }
        if rand_millionths() < 10000 && rand_millionths() < 400000 {
            let aliens = actors.get_actors_by_type(ActorType::FishSpawnAlien);
            if aliens.len() == 0 && self.alien_cooldown == 0 {
                t = ActorType::FishSpawnAlien;
                self.alien_cooldown = 16;
            }
        }
        if rand_millionths() < self.rain_chance_permille * 1000 && rand_millionths() < 120000 {
            t = ActorType::Raincloud;
            self.rain_chance_permille = 0;
        } else {
            if rand_millionths() < 750000 && self.rain_chance_permille < 1000 {
                self.rain_chance_permille = self.rain_chance_permille + 1;
            }
        }
        if rand_millionths() < 10000 && rand_millionths() < 250000 {
            t = ActorType::VoidPortal;
        }
        t
    }

    /// The spawns this tick calls for: at most one rolled kind each host
    /// period, one to three ambient birds each ambient period, and one metal
    /// spawn each metal period. Reschedules each lapsed deadline.
    /// The spawns this tick calls for: at most one rolled kind each host
    /// period, one to three ambient birds each ambient period, and one metal
    /// spawn each metal period. Reschedules each lapsed deadline; a tick with
    /// no lapsed deadline plans nothing and rolls nothing. Every plan names a
    /// kind still under its cap.
    pub fn tick_spawn_plans(&mut self, actors: &ActorManager, now_ms: u64) -> (plans: Vec<
        SpawnPlan,
    >)
        requires
            old(self).wf(),
            now_ms < 0xf000000000000000,
        ensures
            final(self).wf(),
            final(self).game_spawns@ == old(self).game_spawns@,
            final(self).user_spawns@ == old(self).user_spawns@,
            final(self).spawn_timeouts@ == old(self).spawn_timeouts@,
            final(self).spawn_points@ == old(self).spawn_points@,
            now_ms >= old(self).next_host_spawn ==> final(self).next_host_spawn == now_ms
                + HOST_SPAWN_PERIOD_MS,
            now_ms < old(self).next_host_spawn ==> final(self).next_host_spawn == old(
                self,
            ).next_host_spawn && final(self).alien_cooldown == old(self).alien_cooldown
                && final(self).rain_chance_permille == old(self).rain_chance_permille,
            now_ms >= old(self).next_ambient_spawn ==> final(self).next_ambient_spawn == now_ms
                + AMBIENT_SPAWN_PERIOD_MS,
            now_ms < old(self).next_ambient_spawn ==> final(self).next_ambient_spawn == old(
                self,
            ).next_ambient_spawn,
            now_ms >= old(self).next_metal_spawn ==> final(self).next_metal_spawn == now_ms
                + METAL_SPAWN_PERIOD_MS,
            now_ms < old(self).next_metal_spawn ==> final(self).next_metal_spawn == old(
                self,
            ).next_metal_spawn,
            forall|j: int|
                0 <= j < plans@.len() ==> plan_ok(old(self).game_spawns@, #[trigger] plans@[j]),
            now_ms < old(self).next_host_spawn && now_ms < old(self).next_ambient_spawn && now_ms
                < old(self).next_metal_spawn ==> plans@.len() == 0,
            // A lapsed ambient deadline with birds under cap and a usable
            // point group yields one to three bird plans.
            now_ms >= old(self).next_ambient_spawn && tspawns_lookup(
                old(self).game_spawns@,
                ActorType::AmbientBird,
            ).len() < spawn_cap(ActorType::AmbientBird) && 0 < group_points(
                old(self).spawn_points@,
                "trash_point"@,
            ).len() <= 0xffffffff ==> 1 <= count_plans(plans@, ActorType::AmbientBird) <= 3,
            now_ms < old(self).next_ambient_spawn ==> count_plans(
                plans@,
                ActorType::AmbientBird,
            ) == 0,
    {
        let ghost g0 = self.game_spawns@;
        let mut plans: Vec<SpawnPlan> = Vec::new();
        proof {
            assert(count_plans(plans@, ActorType::AmbientBird) == 0);
        }
        if now_ms >= self.next_host_spawn {
            self.next_host_spawn = now_ms + HOST_SPAWN_PERIOD_MS;
            let t = self.roll_spawn_type(actors);
            match t {
                ActorType::FishSpawn => {
                    if self.can_spawn_game_actor(t) {
                        match self.random_spawn_point("fish_spawn") {
                            Some(p) => {
                                let ghost before = plans@;
                                plans.push(SpawnPlan { actor_type: t, base: Some(p) });
                                proof {
                                    lemma_count_plans_push(
                                        before,
                                        plans@.last(),
                                        ActorType::AmbientBird,
                                    );
                                }
                            },
                            None => {},
                        }
                    }
                },
                ActorType::FishSpawnAlien => {
                    if self.can_spawn_game_actor(t) {
                        match self.random_spawn_point("fish_spawn") {
                            Some(p) => {
                                let ghost before = plans@;
                                plans.push(SpawnPlan { actor_type: t, base: Some(p) });
                                proof {
                                    lemma_count_plans_push(
                                        before,
                                        plans@.last(),
                                        ActorType::AmbientBird,
                                    );
                                }
                            },
                            None => {},
                        }
                    }
                },
                ActorType::Raincloud => {
                    if self.can_spawn_game_actor(t) {
                        let ghost before = plans@;
                        plans.push(SpawnPlan { actor_type: t, base: None });
                        proof {
                            lemma_count_plans_push(before, plans@.last(), ActorType::AmbientBird);
                        }
                    }
                },
                ActorType::VoidPortal => {
                    if self.can_spawn_game_actor(t) {
                        match self.random_spawn_point("hidden_spot") {
                            Some(p) => {
                                let ghost before = plans@;
                                plans.push(SpawnPlan { actor_type: t, base: Some(p) });
                                proof {
                                    lemma_count_plans_push(
                                        before,
                                        plans@.last(),
                                        ActorType::AmbientBird,
                                    );
                                }
                            },
                            None => {},
                        }
                    }
                },
                _ => {},
            }
        }
        proof {
            assert(count_plans(plans@, ActorType::AmbientBird) == 0);
            assert(forall|j: int|
                0 <= j < plans@.len() ==> plan_ok(g0, #[trigger] plans@[j]));
        }
        let ghost bird_hyp = tspawns_lookup(g0, ActorType::AmbientBird).len() < spawn_cap(
            ActorType::AmbientBird,
        ) && 0 < group_points(self.spawn_points@, "trash_point"@).len() <= 0xffffffff;
        if now_ms >= self.next_ambient_spawn {
            self.next_ambient_spawn = now_ms + AMBIENT_SPAWN_PERIOD_MS;
            if self.can_spawn_game_actor(ActorType::AmbientBird) {
                let count = (rand_i31() % 3) + 1;
                let mut b: i64 = 0;
                while b < count
                    invariant
                        0 <= b <= count,
                        1 <= count <= 3,
                        self.wf(),
                        self.game_spawns@ == g0,
                        g0 == old(self).game_spawns@,
                        self.user_spawns@ == old(self).user_spawns@,
                        self.spawn_timeouts@ == old(self).spawn_timeouts@,
                        self.spawn_points@ == old(self).spawn_points@,
                        tspawns_lookup(g0, ActorType::AmbientBird).len() < spawn_cap(
                            ActorType::AmbientBird,
                        ),
                        bird_hyp == (tspawns_lookup(g0, ActorType::AmbientBird).len() < spawn_cap(
                            ActorType::AmbientBird,
                        ) && 0 < group_points(self.spawn_points@, "trash_point"@).len()
                            <= 0xffffffff),
                        forall|j: int|
                            0 <= j < plans@.len() ==> plan_ok(g0, #[trigger] plans@[j]),
                        bird_hyp ==> count_plans(plans@, ActorType::AmbientBird) == b,
                        !bird_hyp ==> count_plans(plans@, ActorType::AmbientBird) <= b,
                    decreases count - b,
                {
                    match self.random_spawn_point("trash_point") {
                        Some(p) => {
                            let ghost before = plans@;
                            plans.push(
                                SpawnPlan { actor_type: ActorType::AmbientBird, base: Some(p) },
                            );
                            proof {
                                lemma_count_plans_push(
                                    before,
                                    plans@.last(),
                                    ActorType::AmbientBird,
                                );
                            }
                        },
                        None => {
                            b = count;
                            continue ;
                        },
                    }
                    b += 1;
                }
            }
        }
        if now_ms >= self.next_metal_spawn {
            self.next_metal_spawn = now_ms + METAL_SPAWN_PERIOD_MS;
            if self.can_spawn_game_actor(ActorType::MetalSpawn) {
                let group = if rand_millionths() < 150000 {
                    "shoreline_point"
                } else {
                    "trash_point"
                };
                match self.random_spawn_point(group) {
                    Some(p) => {
                        let ghost before = plans@;
                        plans.push(
                            SpawnPlan { actor_type: ActorType::MetalSpawn, base: Some(p) },
                        );
                        proof {
                            lemma_count_plans_push(before, plans@.last(), ActorType::AmbientBird);
                        }
                    },
                    None => {},
                }
            }
        }
        plans
    }

    /// The spawns owed at startup: four metal spawns, each at a point of the
    /// shoreline or trash group. With both groups usable, exactly four.
    pub fn on_ready_plans(&self) -> (plans: Vec<SpawnPlan>)
        ensures
            plans@.len() <= 4,
            forall|i: int|
                0 <= i < plans@.len() ==> (#[trigger] plans@[i]).actor_type
                    == ActorType::MetalSpawn,
            0 < group_points(self.spawn_points@, "shoreline_point"@).len() <= 0xffffffff && 0
                < group_points(self.spawn_points@, "trash_point"@).len() <= 0xffffffff
                ==> plans@.len() == 4,
    {
        let ghost groups_ok = 0 < group_points(self.spawn_points@, "shoreline_point"@).len()
            <= 0xffffffff && 0 < group_points(self.spawn_points@, "trash_point"@).len()
            <= 0xffffffff;
        let mut plans: Vec<SpawnPlan> = Vec::new();
        let mut k: usize = 0;
        while k < 4
            invariant
                k <= 4,
                plans@.len() <= k,
                groups_ok == (0 < group_points(self.spawn_points@, "shoreline_point"@).len()
                    <= 0xffffffff && 0 < group_points(self.spawn_points@, "trash_point"@).len()
                    <= 0xffffffff),
                groups_ok ==> plans@.len() == k,
                forall|i: int|
                    0 <= i < plans@.len() ==> (#[trigger] plans@[i]).actor_type
                        == ActorType::MetalSpawn,
            decreases 4 - k,
        {
            let group = if rand_millionths() < 150000 {
                "shoreline_point"
            } else {
                "trash_point"
            };
            match self.random_spawn_point(group) {
                Some(p) => plans.push(
                    SpawnPlan { actor_type: ActorType::MetalSpawn, base: Some(p) },
                ),
                None => {},
            }
            k += 1;
        }
        plans
    }

    /// Creates one planned game spawn at its finished position: draws an id,
    /// re-checks the kind's cap and the host quota, inserts and broadcasts
    /// through the registry, then records the id and its lifetime. Never
    /// lifts a kind above its cap.
    pub fn spawn_planned(
        &mut self,
        actors: &mut ActorManager,
        outbox: &mut Vec<OutgoingP2pPacketRequest>,
        host_id: u64,
        actor_type: ActorType,
        position: Vector3,
        now_ms: u64,
    ) -> (r: bool)
        requires
            old(self).wf(),
            old(actors).wf(),
            now_ms < 0xf000000000000000,
        ensures
            final(self).wf(),
            final(actors).wf(),
            r ==> final(self).game_ids(actor_type).len() == old(self).game_ids(
                actor_type,
            ).len() + 1 && old(self).game_ids(actor_type).len() < spawn_cap(actor_type),
            !r ==> final(self).game_spawns@ == old(self).game_spawns@ && final(self).spawn_timeouts@
                == old(self).spawn_timeouts@ && final(actors).actors@ == old(actors).actors@
                && final(outbox)@ == old(outbox)@,
            r ==> exists|a: Actor|
                {
                    &&& final(actors).actors@ == old(actors).actors@.push(a)
                    &&& a.actor_type == actor_type
                    &&& a.creator_id == host_id
                    &&& a.zone@ == "main_zone"@
                    &&& a.zone_owner == -1
                    &&& a.position == position
                    &&& a.rotation == (crate::variant::Vector3 { x: 0, y: 0, z: 0 })
                    &&& final(self).game_ids(actor_type) == old(self).game_ids(actor_type).push(
                        a.id,
                    )
                    &&& (match spawn_lifetime_ms(actor_type) {
                        Some(life) => final(self).spawn_timeouts@ == old(self).spawn_timeouts@.push(
                            (a.id, (now_ms + life) as u64),
                        ),
                        None => final(self).spawn_timeouts@ == old(self).spawn_timeouts@,
                    })
                },
            forall|t2: ActorType|
                t2 != actor_type ==> final(self).game_ids(t2) == old(self).game_ids(t2),
            final(self).user_spawns@ == old(self).user_spawns@,
    {
        if !self.can_spawn_game_actor(actor_type) {
            return false;
        }
        let id = rand_i31();
        let actor = Actor {
            id,
            creator_id: host_id,
            actor_type,
            zone: String::from_str("main_zone"),
            zone_owner: -1,
            position,
            rotation: crate::variant::Vector3 { x: 0, y: 0, z: 0 },
        };
        let ghost a_ghost = actor;
        if !actors.spawn_host_actor(outbox, host_id, actor) {
            return false;
        }
        self.record_game_spawn(actor_type, id, now_ms);
        proof {
            assert(final(actors).actors@ == old(actors).actors@.push(a_ghost));
        }
        true
    }

    /// Creates the user-commanded raincloud at the given position if the user
    /// slot is free, recording it under the user spawns with its lifetime.
    pub fn spawn_user_raincloud(
        &mut self,
        actors: &mut ActorManager,
        outbox: &mut Vec<OutgoingP2pPacketRequest>,
        host_id: u64,
        zone: &str,
        position: Vector3,
        now_ms: u64,
    ) -> (r: bool)
        requires
            old(self).wf(),
            old(actors).wf(),
            now_ms < 0xf000000000000000,
        ensures
            final(self).wf(),
            final(actors).wf(),
            !r ==> final(self).user_spawns@ == old(self).user_spawns@
                && final(self).spawn_timeouts@ == old(self).spawn_timeouts@
                && final(actors).actors@ == old(actors).actors@
                && final(outbox)@ == old(outbox)@,
            r ==> final(outbox)@.take(old(outbox)@.len() as int) == old(outbox)@ && old(
                outbox,
            )@.len() <= final(outbox)@.len() <= old(outbox)@.len() + 2,
            r ==> old(self).user_ids(ActorType::Raincloud).len() == 0 && exists|a: Actor|
                {
                    &&& final(actors).actors@ == old(actors).actors@.push(a)
                    &&& a.actor_type == ActorType::Raincloud
                    &&& a.creator_id == host_id
                    &&& a.zone@ == zone@
                    &&& a.zone_owner == -1
                    &&& a.position == position
                    &&& a.rotation == (crate::variant::Vector3 { x: 0, y: 0, z: 0 })
                    &&& final(self).user_ids(ActorType::Raincloud) == seq![a.id]
                    &&& final(self).spawn_timeouts@ == old(self).spawn_timeouts@.push(
                        (a.id, (now_ms + 541666) as u64),
                    )
                },
            final(self).game_spawns@ == old(self).game_spawns@,
    {
        if !self.can_spawn_user_actor(ActorType::Raincloud) {
            return false;
        }
        let id = rand_i31();
        let actor = Actor {
            id,
            creator_id: host_id,
            actor_type: ActorType::Raincloud,
            zone: String::from_str(zone),
            zone_owner: -1,
            position,
            rotation: crate::variant::Vector3 { x: 0, y: 0, z: 0 },
        };
        if !actors.spawn_host_actor(outbox, host_id, actor) {
            return false;
        }
        let ghost e = self.user_spawns@;
        match find_type_entry(&self.user_spawns, ActorType::Raincloud) {
            Some(i) => {
                proof {
                    lemma_tlookup_at_index(e, i as int);
                }
                self.user_spawns[i].1.push(id);
                proof {
                    let v2 = self.user_spawns@[i as int].1;
                    assert(v2@ == e[i as int].1@.push(id));
                    assert(self.user_spawns@ =~= e.update(i as int, (ActorType::Raincloud, v2)));
                    lemma_tlookup_update(e, i as int, v2);
                    assert forall|p: int, q: int|
                        0 <= p < q < self.user_spawns@.len() implies self.user_spawns@[p].0
                        != self.user_spawns@[q].0 by {
                        assert(self.user_spawns@[p].0 == e[p].0 && self.user_spawns@[q].0
                            == e[q].0);
                    }
                    assert forall|p: int|
                        0 <= p < self.user_spawns@.len() implies (#[trigger] self.user_spawns@[p]).1@.len()
                        <= 1 by {
                        if p != i {
                            assert(self.user_spawns@[p] == e[p]);
                        }
                    }
                }
            },
            None => {
                proof {
                    lemma_tlookup_missing(e, ActorType::Raincloud);
                }
                let mut ids: Vec<i64> = Vec::new();
                ids.push(id);
                self.user_spawns.push((ActorType::Raincloud, ids));
                proof {
                    let v2 = self.user_spawns@[e.len() as int].1;
                    assert(v2@ =~= seq![id]);
                    assert(self.user_spawns@ =~= e.push((ActorType::Raincloud, v2)));
                    lemma_tlookup_push(e, ActorType::Raincloud, v2);
                    assert forall|p: int, q: int|
                        0 <= p < q < self.user_spawns@.len() implies self.user_spawns@[p].0
                        != self.user_spawns@[q].0 by {
                        assert(self.user_spawns@[p] == e[p]);
                        if q < e.len() {
                            assert(self.user_spawns@[q] == e[q]);
                        }
                    }
                    assert forall|p: int|
                        0 <= p < self.user_spawns@.len() implies (#[trigger] self.user_spawns@[p]).1@.len()
                        <= 1 by {
                        if p < e.len() {
                            assert(self.user_spawns@[p] == e[p]);
                        }
                    }
                }
            },
        }
        self.spawn_timeouts.push((id, now_ms + 541666));
        true
    }

    /// Despawns every expired game spawn: the actor leaves the registry with
    /// a `queue_free` broadcast, its id leaves the game and user spawn lists,
    /// and its deadline entry goes. Afterwards no recorded deadline lies
    /// before `now`, and no expired id remains anywhere.
    pub fn on_update_expiry(
        &mut self,
        actors: &mut ActorManager,
        outbox: &mut Vec<OutgoingP2pPacketRequest>,
        now_ms: u64,
    )
        requires
            old(self).wf(),
            old(actors).wf(),
        ensures
            final(self).wf(),
            final(actors).wf(),
            forall|i: int|
                0 <= i < final(self).spawn_timeouts@.len() ==> (#[trigger] final(self).spawn_timeouts@[i]).1 >= now_ms,
            forall|id: i64|
                expired_ids(old(self).spawn_timeouts@, now_ms).contains(id)
                    ==> !#[trigger] final(actors).has_actor(id),
            forall|t: ActorType, id: i64|
                #![trigger final(self).game_ids(t).contains(id)]
                expired_ids(old(self).spawn_timeouts@, now_ms).contains(id)
                    ==> !final(self).game_ids(t).contains(id),
            forall|t: ActorType, id: i64|
                #![trigger final(self).user_ids(t).contains(id)]
                expired_ids(old(self).spawn_timeouts@, now_ms).contains(id)
                    ==> !final(self).user_ids(t).contains(id),
            old(outbox)@.len() <= final(outbox)@.len() <= old(outbox)@.len() + expired_ids(
                old(self).spawn_timeouts@,
                now_ms,
            ).len(),
            final(outbox)@.take(old(outbox)@.len() as int) == old(outbox)@,
            forall|j: int|
                old(outbox)@.len() <= j < final(outbox)@.len() ==> ({
                    &&& (#[trigger] final(outbox)@[j]).target == crate::packet::P2pPacketTarget::All
                    &&& final(outbox)@[j].channel == crate::packet::P2pChannel::ActorAction
                    &&& final(outbox)@[j].send_type == crate::packet::Reliability::Reliable
                    &&& exists|idx: int|
                        0 <= idx < expired_ids(old(self).spawn_timeouts@, now_ms).len()
                            && final(outbox)@[j].data@ == crate::wire::enc(
                            crate::variant::VariantView::Dictionary(
                                crate::packet::actor_action_packet_view(
                                    expired_ids(old(self).spawn_timeouts@, now_ms)[idx],
                                    "queue_free"@,
                                    Seq::empty(),
                                ),
                            ),
                        )
                }),
    {
        let expired = self.get_actors_need_despawn(now_ms);
        let ghost exp = expired@;
        let ghost pre_out = outbox@;
        let n = expired.len();
        let mut i: usize = 0;
        while i < n
            invariant
                i <= n,
                n == exp.len(),
                expired@ == exp,
                exp == expired_ids(old(self).spawn_timeouts@, now_ms),
                self.wf(),
                actors.wf(),
                pre_out == old(outbox)@,
                pre_out.len() <= outbox@.len() <= pre_out.len() + i,
                outbox@.take(pre_out.len() as int) == pre_out,
                forall|j: int| 0 <= j < i ==> !#[trigger] actors.has_actor(exp[j]),
                forall|t: ActorType, j: int|
                    #![trigger self.game_ids(t).contains(exp[j])]
                    0 <= j < i ==> !self.game_ids(t).contains(exp[j]),
                forall|t: ActorType, j: int|
                    #![trigger self.user_ids(t).contains(exp[j])]
                    0 <= j < i ==> !self.user_ids(t).contains(exp[j]),
                forall|j: int|
                    pre_out.len() <= j < outbox@.len() ==> ({
                        &&& (#[trigger] outbox@[j]).target == crate::packet::P2pPacketTarget::All
                        &&& outbox@[j].channel == crate::packet::P2pChannel::ActorAction
                        &&& outbox@[j].send_type == crate::packet::Reliability::Reliable
                        &&& exists|idx: int|
                            0 <= idx < exp.len() && outbox@[j].data@ == crate::wire::enc(
                                crate::variant::VariantView::Dictionary(
                                    crate::packet::actor_action_packet_view(
                                        exp[idx],
                                        "queue_free"@,
                                        Seq::empty(),
                                    ),
                                ),
                            )
                    }),
            decreases n - i,
        {
            let id = expired[i];
            let ghost pre_sm = *self;
            self.strike_spawn_id(id);
            proof {
                assert forall|t: ActorType, j: int|
                    #![trigger self.game_ids(t).contains(exp[j])]
                    0 <= j < i + 1 implies !self.game_ids(t).contains(exp[j]) by {
                    lemma_tlookup_is_entry(self.game_spawns@, t);
                    if self.game_ids(t) != Seq::<i64>::empty() {
                        let pidx = choose|pidx: int|
                            0 <= pidx < self.game_spawns@.len() && (
                            #[trigger] self.game_spawns@[pidx]).0 == t && tspawns_lookup(
                                self.game_spawns@,
                                t,
                            ) == self.game_spawns@[pidx].1@;
                        assert(self.game_spawns@[pidx].1@ == crate::actor::ids_without(
                            pre_sm.game_spawns@[pidx].1@,
                            id,
                        ));
                        crate::actor::lemma_ids_without_contains(
                            pre_sm.game_spawns@[pidx].1@,
                            id,
                        );
                        if j < i {
                            lemma_tlookup_at_index(pre_sm.game_spawns@, pidx);
                            assert(pre_sm.game_spawns@[pidx].0 == t);
                            assert(!pre_sm.game_ids(t).contains(exp[j]));
                            assert(!pre_sm.game_spawns@[pidx].1@.contains(exp[j]));
                        }
                    }
                }
                assert forall|t: ActorType, j: int|
                    #![trigger self.user_ids(t).contains(exp[j])]
                    0 <= j < i + 1 implies !self.user_ids(t).contains(exp[j]) by {
                    lemma_tlookup_is_entry(self.user_spawns@, t);
                    if self.user_ids(t) != Seq::<i64>::empty() {
                        let pidx = choose|pidx: int|
                            0 <= pidx < self.user_spawns@.len() && (
                            #[trigger] self.user_spawns@[pidx]).0 == t && tspawns_lookup(
                                self.user_spawns@,
                                t,
                            ) == self.user_spawns@[pidx].1@;
                        assert(self.user_spawns@[pidx].1@ == crate::actor::ids_without(
                            pre_sm.user_spawns@[pidx].1@,
                            id,
                        ));
                        crate::actor::lemma_ids_without_contains(
                            pre_sm.user_spawns@[pidx].1@,
                            id,
                        );
                        if j < i {
                            lemma_tlookup_at_index(pre_sm.user_spawns@, pidx);
                            assert(pre_sm.user_spawns@[pidx].0 == t);
                            assert(!pre_sm.user_ids(t).contains(exp[j]));
                            assert(!pre_sm.user_spawns@[pidx].1@.contains(exp[j]));
                        }
                    }
                }
            }
            let ghost pre_m = *actors;
            let ghost before_out = outbox@;
            let removed = actors.despawn_host_actor(outbox, id);
            proof {
                assert forall|j: int| 0 <= j < i + 1 implies !#[trigger] actors.has_actor(
                    exp[j],
                ) by {
                    if removed {
                        let k = pre_m.actor_index(id);
                        assert(pre_m.has_actor(id));
                        assert(0 <= k < pre_m.actors@.len() && pre_m.actors@[k].id == id);
                        if j < i {
                            assert(!crate::actor::has_id(pre_m.actors@, exp[j])) by {
                                if crate::actor::has_id(pre_m.actors@, exp[j]) {
                                    let w = choose|w: int|
                                        0 <= w < pre_m.actors@.len() && (
                                        #[trigger] pre_m.actors@[w]).id == exp[j];
                                    assert(pre_m.has_actor(exp[j]));
                                }
                            }
                            crate::actor::lemma_not_has_after_remove(pre_m.actors@, k, exp[j]);
                            assert(!actors.has_actor(exp[j])) by {
                                if actors.has_actor(exp[j]) {
                                    let w = choose|w: int|
                                        0 <= w < actors.actors@.len() && (
                                        #[trigger] actors.actors@[w]).id == exp[j];
                                    assert(crate::actor::has_id(actors.actors@, exp[j]));
                                }
                            }
                        } else {
                            assert forall|w: int|
                                0 <= w < actors.actors@.len() implies (
                            #[trigger] actors.actors@[w]).id != id by {
                                if w < k {
                                    assert(actors.actors@[w] == pre_m.actors@[w]);
                                    assert(pre_m.actors@[w].id != pre_m.actors@[k].id);
                                } else {
                                    assert(actors.actors@[w] == pre_m.actors@[w + 1]);
                                    assert(pre_m.actors@[w + 1].id != pre_m.actors@[k].id);
                                }
                            }
                        }
                    } else {
                        assert(actors.actors@ == pre_m.actors@);
                        assert(!pre_m.has_actor(id));
                        assert(!actors.has_actor(exp[j])) by {
                            if actors.has_actor(exp[j]) {
                                let w = choose|w: int|
                                    0 <= w < actors.actors@.len() && (
                                    #[trigger] actors.actors@[w]).id == exp[j];
                                assert(pre_m.actors@[w].id == exp[j]);
                                assert(pre_m.has_actor(exp[j]));
                            }
                        }
                    }
                }
                assert forall|q: int| 0 <= q < pre_out.len() implies outbox@[q] == pre_out[q] by {
                    if outbox@.len() > before_out.len() {
                        assert(outbox@.take(before_out.len() as int)[q] == outbox@[q]);
                    }
                    assert(before_out.take(pre_out.len() as int)[q] == before_out[q]);
                }
                assert(outbox@.take(pre_out.len() as int) =~= pre_out);
                assert forall|j: int|
                    pre_out.len() <= j < outbox@.len() implies ({
                        &&& (#[trigger] outbox@[j]).target == crate::packet::P2pPacketTarget::All
                        &&& outbox@[j].channel == crate::packet::P2pChannel::ActorAction
                        &&& outbox@[j].send_type == crate::packet::Reliability::Reliable
                        &&& exists|idx: int|
                            0 <= idx < exp.len() && outbox@[j].data@ == crate::wire::enc(
                                crate::variant::VariantView::Dictionary(
                                    crate::packet::actor_action_packet_view(
                                        exp[idx],
                                        "queue_free"@,
                                        Seq::empty(),
                                    ),
                                ),
                            )
                    }) by {
                    if j < before_out.len() {
                        if outbox@.len() > before_out.len() {
                            assert(outbox@.take(before_out.len() as int)[j] == outbox@[j]);
                        }
                        assert(outbox@[j] == before_out[j]);
                    } else {
                        assert(outbox@[j] == outbox@.last());
                        assert(exp[i as int] == id);
                        assert(0 <= i < exp.len() && outbox@[j].data@ == crate::wire::enc(
                            crate::variant::VariantView::Dictionary(
                                crate::packet::actor_action_packet_view(
                                    exp[i as int],
                                    "queue_free"@,
                                    Seq::empty(),
                                ),
                            ),
                        ));
                    }
                }
            }
            i += 1;
        }
        let ghost sm_end = *self;
        self.retain_live_timeouts(now_ms);
        proof {
            assert forall|id: i64|
                expired_ids(old(self).spawn_timeouts@, now_ms).contains(id) implies !#[trigger] actors.has_actor(
                id,
            ) by {
                let j = choose|j: int| 0 <= j < exp.len() && exp[j] == id;
            }
            assert forall|t: ActorType, id: i64|
                #![trigger self.game_ids(t).contains(id)]
                expired_ids(old(self).spawn_timeouts@, now_ms).contains(id) implies !self.game_ids(
                t,
            ).contains(id) by {
                let j = choose|j: int| 0 <= j < exp.len() && exp[j] == id;
                assert(!sm_end.game_ids(t).contains(exp[j]));
                assert(self.game_ids(t) == sm_end.game_ids(t));
            }
            assert forall|t: ActorType, id: i64|
                #![trigger self.user_ids(t).contains(id)]
                expired_ids(old(self).spawn_timeouts@, now_ms).contains(id) implies !self.user_ids(
                t,
            ).contains(id) by {
                let j = choose|j: int| 0 <= j < exp.len() && exp[j] == id;
                assert(!sm_end.user_ids(t).contains(exp[j]));
                assert(self.user_ids(t) == sm_end.user_ids(t));
            }
        }
    }

    /// Strikes one id from every game and user spawn list.
    fn strike_spawn_id(&mut self, id: i64)
        requires
            old(self).wf(),
        ensures
            final(self).wf(),
            final(self).spawn_timeouts@ == old(self).spawn_timeouts@,
            final(self).next_host_spawn == old(self).next_host_spawn,
            final(self).next_ambient_spawn == old(self).next_ambient_spawn,
            final(self).next_metal_spawn == old(self).next_metal_spawn,
            final(self).game_spawns@.len() == old(self).game_spawns@.len(),
            forall|p: int|
                0 <= p < old(self).game_spawns@.len() ==> (#[trigger] final(self).game_spawns@[p]).0
                    == old(self).game_spawns@[p].0 && final(self).game_spawns@[p].1@
                    == crate::actor::ids_without(old(self).game_spawns@[p].1@, id),
            final(self).user_spawns@.len() == old(self).user_spawns@.len(),
            forall|p: int|
                0 <= p < old(self).user_spawns@.len() ==> (#[trigger] final(self).user_spawns@[p]).0
                    == old(self).user_spawns@[p].0 && final(self).user_spawns@[p].1@
                    == crate::actor::ids_without(old(self).user_spawns@[p].1@, id),
    {
        let gn = self.game_spawns.len();
        let mut i: usize = 0;
        while i < gn
            invariant
                i <= gn,
                gn == self.game_spawns@.len(),
                gn == old(self).game_spawns@.len(),
                self.wf(),
                self.spawn_timeouts@ == old(self).spawn_timeouts@,
                self.user_spawns@ == old(self).user_spawns@,
                self.next_host_spawn == old(self).next_host_spawn,
                self.next_ambient_spawn == old(self).next_ambient_spawn,
                self.next_metal_spawn == old(self).next_metal_spawn,
                forall|p: int|
                    0 <= p < i ==> (#[trigger] self.game_spawns@[p]).0 == old(
                        self,
                    ).game_spawns@[p].0 && self.game_spawns@[p].1@ == crate::actor::ids_without(
                        old(self).game_spawns@[p].1@,
                        id,
                    ),
                forall|p: int|
                    i <= p < gn ==> #[trigger] self.game_spawns@[p] == old(self).game_spawns@[p],
            decreases gn - i,
        {
            let ghost g = self.game_spawns@;
            let kept = retain_ids(&self.game_spawns[i].1, id);
            proof {
                assert(kept@.len() <= g[i as int].1@.len());
            }
            let ghost t0 = self.game_spawns[i as int].0;
            self.game_spawns[i] = (self.game_spawns[i].0, kept);
            proof {
                assert(self.game_spawns@ =~= g.update(i as int, (g[i as int].0, self.game_spawns@[i as int].1)));
                assert forall|p: int, q: int|
                    0 <= p < q < self.game_spawns@.len() implies self.game_spawns@[p].0
                    != self.game_spawns@[q].0 by {
                    assert(self.game_spawns@[p].0 == g[p].0 && self.game_spawns@[q].0 == g[q].0);
                }
                assert forall|p: int|
                    0 <= p < self.game_spawns@.len() implies (#[trigger] self.game_spawns@[p]).1@.len()
                    <= spawn_cap(self.game_spawns@[p].0) by {
                    if p != i {
                        assert(self.game_spawns@[p] == g[p]);
                    }
                }
            }
            i += 1;
        }
        let un = self.user_spawns.len();
        let mut j: usize = 0;
        while j < un
            invariant
                j <= un,
                un == self.user_spawns@.len(),
                un == old(self).user_spawns@.len(),
                self.wf(),
                self.spawn_timeouts@ == old(self).spawn_timeouts@,
                self.next_host_spawn == old(self).next_host_spawn,
                self.next_ambient_spawn == old(self).next_ambient_spawn,
                self.next_metal_spawn == old(self).next_metal_spawn,
                self.game_spawns@.len() == old(self).game_spawns@.len(),
                forall|p: int|
                    0 <= p < old(self).game_spawns@.len() ==> (
                    #[trigger] self.game_spawns@[p]).0 == old(self).game_spawns@[p].0
                        && self.game_spawns@[p].1@ == crate::actor::ids_without(
                        old(self).game_spawns@[p].1@,
                        id,
                    ),
                forall|p: int|
                    0 <= p < j ==> (#[trigger] self.user_spawns@[p]).0 == old(
                        self,
                    ).user_spawns@[p].0 && self.user_spawns@[p].1@ == crate::actor::ids_without(
                        old(self).user_spawns@[p].1@,
                        id,
                    ),
                forall|p: int|
                    j <= p < un ==> #[trigger] self.user_spawns@[p] == old(self).user_spawns@[p],
            decreases un - j,
        {
            let ghost u = self.user_spawns@;
            let kept = retain_ids(&self.user_spawns[j].1, id);
            proof {
                assert(kept@.len() <= u[j as int].1@.len());
            }
            self.user_spawns[j] = (self.user_spawns[j].0, kept);
            proof {
                assert(self.user_spawns@ =~= u.update(j as int, (u[j as int].0, self.user_spawns@[j as int].1)));
                assert forall|p: int, q: int|
                    0 <= p < q < self.user_spawns@.len() implies self.user_spawns@[p].0
                    != self.user_spawns@[q].0 by {
                    assert(self.user_spawns@[p].0 == u[p].0 && self.user_spawns@[q].0 == u[q].0);
                }
                assert forall|p: int|
                    0 <= p < self.user_spawns@.len() implies (#[trigger] self.user_spawns@[p]).1@.len()
                    <= 1 by {
                    if p != j {
                        assert(self.user_spawns@[p] == u[p]);
                    }
                }
            }
            j += 1;
        }
    }

    /// Keeps only the deadline entries at or past `now`.
    fn retain_live_timeouts(&mut self, now_ms: u64)
        requires
            old(self).wf(),
        ensures
            final(self).wf(),
            forall|i: int|
                0 <= i < final(self).spawn_timeouts@.len() ==> (#[trigger] final(self).spawn_timeouts@[i]).1 >= now_ms,
            final(self).game_spawns@ == old(self).game_spawns@,
            final(self).user_spawns@ == old(self).user_spawns@,
            final(self).spawn_points@ == old(self).spawn_points@,
            final(self).next_host_spawn == old(self).next_host_spawn,
            final(self).next_ambient_spawn == old(self).next_ambient_spawn,
            final(self).next_metal_spawn == old(self).next_metal_spawn,
    {
        let n = self.spawn_timeouts.len();
        let mut kept: Vec<(i64, u64)> = Vec::new();
        let mut i: usize = 0;
        while i < n
            invariant
                i <= n,
                n == self.spawn_timeouts@.len(),
                forall|p: int| 0 <= p < kept@.len() ==> (#[trigger] kept@[p]).1 >= now_ms,
            decreases n - i,
        {
            if self.spawn_timeouts[i].1 >= now_ms {
                kept.push((self.spawn_timeouts[i].0, self.spawn_timeouts[i].1));
            }
            i += 1;
        }
        self.spawn_timeouts = kept;
    }
}

/// The ids of a list except one.
fn retain_ids(ids: &Vec<i64>, id: i64) -> (r: Vec<i64>)
    ensures
        r@ == crate::actor::ids_without(ids@, id),
        r@.len() <= ids@.len(),
{
    let ghost w = ids@;
    let n = ids.len();
    let mut kept: Vec<i64> = Vec::new();
    let mut i: usize = 0;
    proof {
        assert(w.skip(0) =~= w);
    }
    while i < n
        invariant
            i <= n,
            n == w.len(),
            ids@ == w,
            kept@.len() <= i,
            crate::actor::ids_without(w, id) == kept@ + crate::actor::ids_without(
                w.skip(i as int),
                id,
            ),
        decreases n - i,
    {
        proof {
            assert(w.skip(i as int)[0] == w[i as int]);
            assert(w.skip(i as int).drop_first() =~= w.skip(i + 1));
        }
        if ids[i] != id {
            kept.push(ids[i]);
            proof {
                assert(kept@ + crate::actor::ids_without(w.skip(i + 1), id) =~= kept@.drop_last()
                    + (seq![w[i as int]] + crate::actor::ids_without(w.skip(i + 1), id)));
            }
        }
        i += 1;
    }
    proof {
        assert(w.skip(n as int) =~= Seq::<i64>::empty());
        assert(kept@ =~= kept@ + crate::actor::ids_without(w.skip(n as int), id));
    }
    kept
}

/// The lookup result of a kind is empty or one entry's id list.
proof fn lemma_tlookup_is_entry(e: Seq<(ActorType, Vec<i64>)>, t: ActorType)
    ensures
        tspawns_lookup(e, t) == Seq::<i64>::empty() || exists|i: int|
            0 <= i < e.len() && (#[trigger] e[i]).0 == t && tspawns_lookup(e, t) == e[i].1@,
    decreases e.len(),
{
    if e.len() > 0 && e[0].0 != t {
        lemma_tlookup_is_entry(e.drop_first(), t);
        if tspawns_lookup(e, t) != Seq::<i64>::empty() {
            let i = choose|i: int|
                0 <= i < e.drop_first().len() && (#[trigger] e.drop_first()[i]).0 == t
                    && tspawns_lookup(e.drop_first(), t) == e.drop_first()[i].1@;
            assert(e[i + 1].0 == t && tspawns_lookup(e, t) == e[i + 1].1@);
        }
    }
}

} // verus!
