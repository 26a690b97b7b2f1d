//! The entity-component store and the process-wide resources.
//!
//! Entities are indices into an arena of component records; a despawned
//! entity's slot is cleared and its identifier is never reused, so
//! identifiers stay stable for as long as anything holds them. Destruction
//! during a tick goes through the despawn queue and takes effect only when
//! the queue is flushed at the end of the tick.

use vstd::prelude::*;

use crate::components::{
    collider_group_wf, light_wf, pos_wf, AnimatedSprite, ColliderGroup, Enemy, Floor, Interactable,
    Light, ParticleEmitter, Player, Pos, Projectile, ProximityIndicator, Prop, Static, Wall,
};
use crate::geom::Color;
use crate::inventory::{inv_wf, Inventory};
use crate::math::{clamp_i32, clamped, vec2_bounded, COORD_LIMIT};
use crate::render_data::{repo_wf, AnimationRepository};

verus! {

/// Largest magnitude of a projectile velocity, in subunits per tick.
pub const VEL_LIMIT: i64 = 100_000;

/// An opaque, stable identity for a game object. Identifiers are handed out
/// in spawn order and never reused.
#[derive(Clone, Copy, PartialEq, Eq, Structural, Debug)]
pub struct Entity {
    pub id: usize,
}

/// The component set of one entity: at most one component of each kind.
#[derive(Clone, Copy, PartialEq, Eq, Structural, Debug)]
pub struct EntityRecord {
    pub pos: Option<Pos>,
    pub sprite: Option<AnimatedSprite>,
    pub colliders: Option<ColliderGroup>,
    pub light: Option<Light>,
    pub player: Option<Player>,
    pub enemy: Option<Enemy>,
    pub projectile: Option<Projectile>,
    pub interactable: Option<Interactable>,
    pub proximity: Option<ProximityIndicator>,
    pub emitter: Option<ParticleEmitter>,
    pub floor: Option<Floor>,
    pub wall: Option<Wall>,
    pub prop: Option<Prop>,
    pub is_static: Option<Static>,
}

impl EntityRecord {
    /// A record with no components; spawn sites fill in what they attach.
    pub fn empty() -> (r: EntityRecord)
        ensures
            r == (EntityRecord {
                pos: None,
                sprite: None,
                colliders: None,
                light: None,
                player: None,
                enemy: None,
                projectile: None,
                interactable: None,
                proximity: None,
                emitter: None,
                floor: None,
                wall: None,
                prop: None,
                is_static: None,
            }),
    {
        EntityRecord {
            pos: None,
            sprite: None,
            colliders: None,
            light: None,
            player: None,
            enemy: None,
            projectile: None,
            interactable: None,
            proximity: None,
            emitter: None,
            floor: None,
            wall: None,
            prop: None,
            is_static: None,
        }
    }
}

/// Per-record invariant: positions in range, colliders and lights
/// well-formed, projectile velocities bounded.
pub open spec fn rec_wf(r: EntityRecord) -> bool {
    &&& (r.pos is Some ==> pos_wf(r.pos->Some_0))
    &&& (r.colliders is Some ==> collider_group_wf(r.colliders->Some_0))
    &&& (r.light is Some ==> light_wf(r.light->Some_0))
    &&& (r.projectile is Some ==> vec2_bounded(r.projectile->Some_0.velocity, VEL_LIMIT as int))
    &&& (r.interactable is Some ==> crate::components::interact_wf(r.interactable->Some_0.on_interact))
}

/// A component kind, for presence tests and query filters.
#[derive(Clone, Copy, PartialEq, Eq, Structural, Debug)]
pub enum ComponentKind {
    Pos,
    Sprite,
    Colliders,
    Light,
    Player,
    Enemy,
    Projectile,
    Interactable,
    Proximity,
    Emitter,
    Floor,
    Wall,
    Prop,
    Static,
}

/// Whether a record carries a component of the given kind.
pub open spec fn rec_has(r: EntityRecord, k: ComponentKind) -> bool {
    match k {
        ComponentKind::Pos => r.pos is Some,
        ComponentKind::Sprite => r.sprite is Some,
        ComponentKind::Colliders => r.colliders is Some,
        ComponentKind::Light => r.light is Some,
        ComponentKind::Player => r.player is Some,
        ComponentKind::Enemy => r.enemy is Some,
        ComponentKind::Projectile => r.projectile is Some,
        ComponentKind::Interactable => r.interactable is Some,
        ComponentKind::Proximity => r.proximity is Some,
        ComponentKind::Emitter => r.emitter is Some,
        ComponentKind::Floor => r.floor is Some,
        ComponentKind::Wall => r.wall is Some,
        ComponentKind::Prop => r.prop is Some,
        ComponentKind::Static => r.is_static is Some,
    }
}

/// The boolean "pressed" flags of every logical action.
#[derive(Clone, Copy, PartialEq, Eq, Structural, Debug)]
pub struct InputState {
    pub up: bool,
    pub down: bool,
    pub left: bool,
    pub right: bool,
    pub shift: bool,
    pub fire_up: bool,
    pub fire_down: bool,
    pub fire_left: bool,
    pub fire_right: bool,
    pub interact: bool,
    pub q: bool,
    pub e: bool,
    pub use_item: bool,
}

impl InputState {
    /// All actions released.
    pub fn released() -> (s: InputState)
        ensures
            s == InputState::all(false),
    {
        InputState {
            up: false,
            down: false,
            left: false,
            right: false,
            shift: false,
            fire_up: false,
            fire_down: false,
            fire_left: false,
            fire_right: false,
            interact: false,
            q: false,
            e: false,
            use_item: false,
        }
    }

    /// Every flag set to `b`.
    pub open spec fn all(b: bool) -> InputState {
        InputState {
            up: b,
            down: b,
            left: b,
            right: b,
            shift: b,
            fire_up: b,
            fire_down: b,
            fire_left: b,
            fire_right: b,
            interact: b,
            q: b,
            e: b,
            use_item: b,
        }
    }
}

/// Held and freshly-pressed action flags, filled by the platform layer.
#[derive(Clone, Copy, PartialEq, Eq, Structural, Debug)]
pub struct Input {
    pub pressed: InputState,
    pub just_pressed: InputState,
}

impl Input {
    /// No action held or freshly pressed.
    pub fn idle() -> (r: Input)
        ensures
            r == (Input { pressed: InputState::all(false), just_pressed: InputState::all(false) }),
    {
        Input { pressed: InputState::released(), just_pressed: InputState::released() }
    }
}

/// The process-wide resource singleton: input, configuration, caches, the
/// player inventory, and the despawn queue. It is passed explicitly to every
/// system rather than living in an ambient global.
pub struct Ctx {
    pub animations: AnimationRepository,
    pub despawn_queue: Vec<Entity>,
    pub input: Input,
    pub player_speed: i64,
    pub enemy_speed: i64,
    pub bullet_speed: i64,
    pub bullet_lifetime: usize,
    pub player_fire_cooldown: usize,
    pub player_pos: Pos,
    pub room_size: (u16, u16),
    pub window_size: (u16, u16),
    pub player_inventory: Inventory,
    pub particle_emitter_entity: Option<Entity>,
    pub ambient: Color,
}

/// Resource invariant: sane speeds, a window no wider than the room allows,
/// a bounded cached player position, and a well-formed inventory and
/// animation repository.
pub open spec fn ctx_wf(c: Ctx) -> bool {
    &&& repo_wf(c.animations)
    &&& inv_wf(c.player_inventory)
    &&& pos_wf(c.player_pos)
    &&& 0 <= c.player_speed <= 50_000
    &&& 0 <= c.enemy_speed <= 50_000
    &&& 0 <= c.bullet_speed <= 50_000
    &&& c.window_size.0 / 2 <= c.room_size.0
    &&& c.window_size.1 / 2 <= c.room_size.1
}

impl Ctx {
    /// The screen-space offset of the camera: the player centered, clamped
    /// to the room.
    pub fn camera_pos(&self) -> (r: (i32, i32))
        requires
            ctx_wf(*self),
        ensures
            r.0 == camera_coord(self.player_pos.x as int, self.window_size.0 as int, self.room_size.0 as int),
            r.1 == camera_coord(self.player_pos.y as int, self.window_size.1 as int, self.room_size.1 as int),
    {
        let wx: i32 = self.window_size.0 as i32;
        let wy: i32 = self.window_size.1 as i32;
        let px: i32 = (crate::math::div_i64(self.player_pos.x, 1000)) as i32;
        let py: i32 = (crate::math::div_i64(self.player_pos.y, 1000)) as i32;
        (
            clamp_i32(px - wx / 2, 0, (self.room_size.0 as i32) - wx / 2),
            clamp_i32(py - wy / 2, 0, (self.room_size.1 as i32) - wy / 2),
        )
    }
}

/// One camera axis: the player's pixel coordinate shifted back by half the
/// window, clamped between zero and the far room edge.
pub open spec fn camera_coord(player_subunits: int, window: int, room: int) -> int {
    clamped(crate::math::div_trunc(player_subunits, 1000) - window / 2, 0, room - window / 2)
}

/// The store and the resources: all simulation state.
pub struct World {
    pub ents: Vec<Option<EntityRecord>>,
    pub ctx: Ctx,
}

impl World {
    /// Whether entity `i` currently exists (spawned and not yet despawned):
    /// exactly the entities queries iterate and lookups find.
    pub open spec fn live(self, i: int) -> bool {
        0 <= i < self.ents@.len() && self.ents@[i] is Some
    }

    /// The component record of a live entity.
    pub open spec fn rec(self, i: int) -> EntityRecord {
        self.ents@[i]->Some_0
    }
}

/// Store invariant: every live record is well-formed, every queued entity
/// identifier was handed out by a spawn, and the resources are well-formed.
pub open spec fn world_wf(w: World) -> bool {
    &&& ctx_wf(w.ctx)
    &&& forall|i: int|
        0 <= i < w.ents@.len() && (#[trigger] w.ents@[i]) is Some ==> rec_wf(w.ents@[i]->Some_0)
    &&& forall|k: int|
        0 <= k < w.ctx.despawn_queue@.len() ==> (#[trigger] w.ctx.despawn_queue@[k]).id
            < w.ents@.len()
}

/// The arena after every queued entity has been despawned, front to back.
pub open spec fn flushed(ents: Seq<Option<EntityRecord>>, q: Seq<Entity>) -> Seq<
    Option<EntityRecord>,
>
    decreases q.len(),
{
    if q.len() == 0 {
        ents
    } else {
        flushed(ents.update(q.first().id as int, None), q.drop_first())
    }
}

/// Despawn deferral, the flush half: flushing the queue removes exactly the
/// queued entities. Every entity queued during a tick is gone afterward, and
/// every other entity keeps the record it had when the flush began.
pub proof fn lemma_flush_removes_queued(ents: Seq<Option<EntityRecord>>, q: Seq<Entity>)
    requires
        forall|k: int| 0 <= k < q.len() ==> (#[trigger] q[k]).id < ents.len(),
    ensures
        flushed(ents, q).len() == ents.len(),
        forall|k: int| 0 <= k < q.len() ==> flushed(ents, q)[(#[trigger] q[k]).id as int] is None,
        forall|i: int|
            0 <= i < ents.len() && (forall|k: int| 0 <= k < q.len() ==> (#[trigger] q[k]).id != i)
                ==> flushed(ents, q)[i] == ents[i],
    decreases q.len(),
{
    if q.len() > 0 {
        let e0 = q.first();
        let ents1 = ents.update(e0.id as int, None);
        assert(forall|k: int| 0 <= k < q.drop_first().len() ==> (#[trigger] q.drop_first()[k]).id
            < ents1.len());
        lemma_flush_removes_queued(ents1, q.drop_first());
        assert forall|k: int| 0 <= k < q.len() implies flushed(ents, q)[(#[trigger] q[k]).id as int]
            is None by {
            if k == 0 {
                if forall|j: int|
                    0 <= j < q.drop_first().len() ==> (#[trigger] q.drop_first()[j]).id != e0.id {
                    assert(flushed(ents1, q.drop_first())[e0.id as int] == ents1[e0.id as int]);
                } else {
                    let j = choose|j: int|
                        0 <= j < q.drop_first().len() && (#[trigger] q.drop_first()[j]).id == e0.id;
                    assert(flushed(ents1, q.drop_first())[q.drop_first()[j].id as int] is None);
                }
            } else {
                assert(q.drop_first()[k - 1] == q[k]);
            }
        }
        assert forall|i: int|
            0 <= i < ents.len() && (forall|k: int| 0 <= k < q.len() ==> (#[trigger] q[k]).id != i)
                implies flushed(ents, q)[i] == ents[i] by {
            assert(q[0].id != i);
            assert(ents1[i] == ents[i]);
            assert forall|k: int|
                0 <= k < q.drop_first().len() implies (#[trigger] q.drop_first()[k]).id != i by {
                assert(q.drop_first()[k] == q[k + 1]);
            }
            assert(flushed(ents1, q.drop_first())[i] == ents1[i]);
        }
    }
}

impl World {
    /// A world with no entities over the given resources.
    pub fn new(ctx: Ctx) -> (w: World)
        requires
            ctx_wf(ctx),
            ctx.despawn_queue@.len() == 0,
        ensures
            world_wf(w),
            w.ents@.len() == 0,
            w.ctx == ctx,
    {
        World { ents: Vec::new(), ctx }
    }

    /// Creates an entity with the given components attached, all at once.
    /// The new identifier is fresh: no existing entity is disturbed.
    pub fn spawn(&mut self, rec: EntityRecord) -> (e: Entity)
        requires
            world_wf(*old(self)),
            rec_wf(rec),
        ensures
            world_wf(*final(self)),
            e.id == old(self).ents@.len(),
            final(self).ents@ == old(self).ents@.push(Some(rec)),
            final(self).ctx == old(self).ctx,
            !old(self).live(e.id as int) && final(self).live(e.id as int),
            final(self).rec(e.id as int) == rec,
            forall|i: int| 0 <= i < old(self).ents@.len() ==> final(self).ents@[i] == old(self).ents@[i],
    {
        let id = self.ents.len();
        self.ents.push(Some(rec));
        Entity { id }
    }

    /// Removes an entity and all its components from storage at once. The
    /// caller (the update loop) is responsible for deferring this to the end
    /// of the tick through the despawn queue; despawning an entity that is
    /// already gone is harmless.
    pub fn despawn(&mut self, e: Entity)
        requires
            world_wf(*old(self)),
            e.id < old(self).ents@.len(),
        ensures
            world_wf(*final(self)),
            final(self).ents@ == old(self).ents@.update(e.id as int, None),
            final(self).ctx == old(self).ctx,
            !final(self).live(e.id as int),
    {
        self.ents[e.id] = None;
    }

    /// The component record of an entity, or `None` for an identifier that
    /// is out of range or already despawned.
    pub fn get(&self, e: Entity) -> (r: Option<EntityRecord>)
        ensures
            r == if self.live(e.id as int) {
                Some(self.rec(e.id as int))
            } else {
                None
            },
    {
        if e.id < self.ents.len() {
            self.ents[e.id]
        } else {
            None
        }
    }

    /// Replaces a live entity's component record.
    pub fn set(&mut self, e: Entity, rec: EntityRecord)
        requires
            world_wf(*old(self)),
            old(self).live(e.id as int),
            rec_wf(rec),
        ensures
            world_wf(*final(self)),
            final(self).ents@ == old(self).ents@.update(e.id as int, Some(rec)),
            final(self).ctx == old(self).ctx,
    {
        self.ents[e.id] = Some(rec);
    }

    /// Whether an entity exists and carries a component of the given kind.
    pub fn has_component(&self, e: Entity, k: ComponentKind) -> (b: bool)
        ensures
            b == (self.live(e.id as int) && rec_has(self.rec(e.id as int), k)),
    {
        match self.get(e) {
            Some(r) => match k {
                ComponentKind::Pos => r.pos.is_some(),
                ComponentKind::Sprite => r.sprite.is_some(),
                ComponentKind::Colliders => r.colliders.is_some(),
                ComponentKind::Light => r.light.is_some(),
                ComponentKind::Player => r.player.is_some(),
                ComponentKind::Enemy => r.enemy.is_some(),
                ComponentKind::Projectile => r.projectile.is_some(),
                ComponentKind::Interactable => r.interactable.is_some(),
                ComponentKind::Proximity => r.proximity.is_some(),
                ComponentKind::Emitter => r.emitter.is_some(),
                ComponentKind::Floor => r.floor.is_some(),
                ComponentKind::Wall => r.wall.is_some(),
                ComponentKind::Prop => r.prop.is_some(),
                ComponentKind::Static => r.is_static.is_some(),
            },
            None => false,
        }
    }

    /// Despawn deferral, the queue half: enqueueing an entity for despawn
    /// removes nothing. The entity stays in storage, queryable, until the
    /// queue is flushed; queueing the same entity twice is harmless.
    pub fn enqueue_despawn(&mut self, e: Entity)
        requires
            world_wf(*old(self)),
            e.id < old(self).ents@.len(),
        ensures
            world_wf(*final(self)),
            final(self).ents@ == old(self).ents@,
            final(self).ctx.despawn_queue@ == old(self).ctx.despawn_queue@.push(e),
            ctx_fields_eq_but_queue(final(self).ctx, old(self).ctx),
    {
        self.ctx.despawn_queue.push(e);
    }

    /// Flushes the despawn queue: every queued entity is removed from
    /// storage, every other entity keeps its record, and the queue is left
    /// empty for the next tick.
    pub fn flush_despawn_queue(&mut self)
        requires
            world_wf(*old(self)),
        ensures
            world_wf(*final(self)),
            final(self).ents@ == flushed(old(self).ents@, old(self).ctx.despawn_queue@),
            final(self).ents@.len() == old(self).ents@.len(),
            final(self).ctx.despawn_queue@.len() == 0,
            ctx_fields_eq_but_queue(final(self).ctx, old(self).ctx),
            forall|k: int|
                0 <= k < old(self).ctx.despawn_queue@.len() ==> !final(self).live(
                    (#[trigger] old(self).ctx.despawn_queue@[k]).id as int,
                ),
            forall|i: int|
                0 <= i < old(self).ents@.len() && (forall|k: int|
                    0 <= k < old(self).ctx.despawn_queue@.len() ==> (#[trigger] old(
                        self,
                    ).ctx.despawn_queue@[k]).id != i) ==> final(self).ents@[i] == old(self).ents@[i],
    {
        let ghost q = self.ctx.despawn_queue@;
        let ghost ents0 = self.ents@;
        let mut k: usize = 0;
        let n = self.ctx.despawn_queue.len();
        proof {
            assert(q.skip(0) =~= q);
        }
        while k < n
            invariant
                world_wf(*self),
                n == q.len(),
                k <= n,
                self.ctx.despawn_queue@ == q,
                self.ents@.len() == ents0.len(),
                flushed(ents0, q) == flushed(self.ents@, q.skip(k as int)),
                ctx_fields_eq_but_queue(self.ctx, old(self).ctx),
                forall|j: int| 0 <= j < q.len() ==> (#[trigger] q[j]).id < self.ents@.len(),
            decreases n - k,
        {
            let ghost ents_k = self.ents@;
            let e = self.ctx.despawn_queue[k];
            proof {
                assert(q.skip(k as int).first() == q[k as int]);
                assert(q.skip(k as int).drop_first() =~= q.skip(k as int + 1));
                assert(flushed(ents_k, q.skip(k as int)) == flushed(
                    ents_k.update(q[k as int].id as int, None),
                    q.skip(k as int + 1),
                ));
            }
            self.ents[e.id] = None;
            k = k + 1;
        }
        assert(q.skip(n as int) =~= Seq::<Entity>::empty());
        self.ctx.despawn_queue.clear();
        proof {
            lemma_flush_removes_queued(ents0, q);
        }
    }
}

/// The two contexts agree on everything except the despawn queue.
pub open spec fn ctx_fields_eq_but_queue(a: Ctx, b: Ctx) -> bool {
    a == (Ctx { despawn_queue: a.despawn_queue, ..b })
}

} // verus!
