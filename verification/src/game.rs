//! The game layer over the store: the spawn recipes for every entity kind,
//! the per-tick system sequence, and the per-frame render pass that turns
//! world state into draw commands and a lighting pass.

use vstd::prelude::*;

use crate::components::{
    AnimatedSprite, AnimationId, Collider, ColliderGroup, CollisionResponse, Enemy, Floor,
    Interactable, InteractAction, Light, ParticleEmitter, Player, Pos, pos_wf, Projectile,
    ProximityIndicator, Prop, Sprite, Static, Wall, CH_HITBOX, CH_NAV, CH_NONE,
};
use crate::geom::Color;
use crate::inventory::{
    Chemlight, Inventory, Item, PerfectlyGenericItem, TestItem, Torch, WorldEffect,
};
use crate::math::{vec2_bounded, Vec2};
use crate::render_data::AnimationRepository;
use crate::world::{
    ctx_wf, rec_wf, world_wf, Ctx, Entity, EntityRecord, Input, InputState, World,
};

verus! {

/// The side length of one map tile, in pixels.
pub const TILE_SIZE: i64 = 32;

/// Relies on rand's thread-local generator: `Rng::gen_range` over a
/// half-open integer range returns a value inside it. Nothing more is
/// promised of the draw.
#[verifier::external_body]
fn rand_in_range(lo: i64, hi: i64) -> (r: i64)
    requires
        lo < hi,
    ensures
        lo <= r < hi,
{
    <rand::rngs::ThreadRng as rand::Rng>::gen_range(&mut rand::thread_rng(), lo..hi)
}

/// The center of a map tile, in world subunits.
pub fn tile_to_pos(x: i64, y: i64) -> (p: Pos)
    requires
        -8192 <= x <= 8192,
        -8192 <= y <= 8192,
    ensures
        p.x == x * TILE_SIZE * 1000 + TILE_SIZE * 500,
        p.y == y * TILE_SIZE * 1000 + TILE_SIZE * 500,
        pos_wf(p),
{
    Pos { x: x * TILE_SIZE * 1000 + TILE_SIZE * 500, y: y * TILE_SIZE * 1000 + TILE_SIZE * 500 }
}

/// The animation set the game's sprites refer to by name.
pub fn default_animations() -> (r: AnimationRepository)
    ensures
        crate::render_data::repo_wf(r),
        crate::render_data::repo_has_name(r, "player_idle"@),
{
    let mut repo = AnimationRepository::new();
    let mut frames: Vec<Sprite> = Vec::new();
    frames.push(Sprite(0, 0, 1, 2));
    frames.push(Sprite(1, 0, 1, 2));
    repo.push("player_idle", frames);
    proof {
        assert(repo.lookup@[0].0@ == "player_idle"@);
    }

    let mut frames: Vec<Sprite> = Vec::new();
    frames.push(Sprite(0, 0, 1, 2));
    frames.push(Sprite(2, 0, 1, 2));
    frames.push(Sprite(0, 0, 1, 2));
    frames.push(Sprite(3, 0, 1, 2));
    repo.push("player_walk", frames);

    let mut frames: Vec<Sprite> = Vec::new();
    frames.push(Sprite(4, 0, 2, 2));
    frames.push(Sprite(6, 0, 2, 2));
    repo.push("enemy_walk", frames);

    let mut frames: Vec<Sprite> = Vec::new();
    frames.push(Sprite(10, 0, 1, 1));
    frames.push(Sprite(11, 0, 1, 1));
    repo.push("bang", frames);

    let mut frames: Vec<Sprite> = Vec::new();
    frames.push(Sprite(8, 0, 1, 1));
    repo.push("floor", frames);

    let mut frames: Vec<Sprite> = Vec::new();
    frames.push(Sprite(0, 2, 1, 2));
    repo.push("wall", frames);

    let mut frames: Vec<Sprite> = Vec::new();
    frames.push(Sprite(9, 1, 1, 1));
    frames.push(Sprite(10, 1, 1, 1));
    frames.push(Sprite(11, 1, 1, 1));
    repo.push("torch", frames);

    let mut frames: Vec<Sprite> = Vec::new();
    frames.push(Sprite(8, 1, 1, 1));
    repo.push("lever", frames);

    let mut frames: Vec<Sprite> = Vec::new();
    frames.push(Sprite(9, 0, 1, 1));
    repo.push("particle_emitter", frames);

    let mut frames: Vec<Sprite> = Vec::new();
    frames.push(Sprite(12, 1, 1, 1));
    repo.push("chemlight", frames);

    proof {
        assert(repo.lookup@[0].0@ == "player_idle"@);
    }
    repo
}

/// The game's standing configuration: speeds in subunits per tick, lifetimes
/// and cooldowns in ticks, and an empty inventory and despawn queue.
pub fn standard_ctx(window_size: (u16, u16)) -> (c: Ctx)
    requires
        window_size.0 / 2 <= 2048,
        window_size.1 / 2 <= 2048,
    ensures
        ctx_wf(c),
        c.despawn_queue@.len() == 0,
        c.input.pressed == crate::world::InputState::all(false),
        c.input.just_pressed == crate::world::InputState::all(false),
        c.player_speed == 3000,
        c.enemy_speed == 1200,
        c.bullet_speed == 4000,
        c.bullet_lifetime == 60,
        c.player_fire_cooldown == 20,
        c.player_inventory.num_items == 0,
        c.room_size == (2048u16, 2048u16),
    {
    Ctx {
        animations: default_animations(),
        despawn_queue: Vec::new(),
        input: Input::idle(),
        player_speed: 3000,
        enemy_speed: 1200,
        bullet_speed: 4000,
        bullet_lifetime: 60,
        player_fire_cooldown: 20,
        player_pos: Pos::zero(),
        room_size: (2048, 2048),
        window_size,
        player_inventory: Inventory::new(),
        particle_emitter_entity: None,
        ambient: Color { r: 70, g: 70, b: 70 },
    }
}

/// Resolves an animation name, falling back to the sentinel when the name
/// is not registered (a sprite with the sentinel draws nothing).
fn anim_or_sentinel(w: &World, name: &str) -> (a: AnimationId)
    requires
        world_wf(*w),
    ensures
        a.0 < w.ctx.animations.animations@.len(),
{
    match w.ctx.animations.get(name) {
        Some(a) => a,
        None => AnimationId(0),
    }
}

/// The player's spawn recipe: position, idle sprite, a solid collider, a
/// dark light to carry torchlight, and the starting inventory.
pub open spec fn player_record(pos: Vec2, anim: AnimationId, fire_cooldown: usize) -> EntityRecord {
    EntityRecord {
        player: Some(Player { fire_cooldown, can_fire_in: 0 }),
        pos: Some(Pos { x: pos.x, y: pos.y }),
        sprite: Some(
            AnimatedSprite {
                anim,
                frame: 0,
                width: 32,
                height: 64,
                ticks: 0,
                ticks_per_frame: 15,
                flip_horizontal: false,
                x_offset: (-16) as i16,
                y_offset: (-48) as i16,
                z_offset: None,
            },
        ),
        colliders: Some(
            ColliderGroup {
                nav: Some(
                    Collider {
                        channels: CH_NAV,
                        collides_with: CH_NAV,
                        x_offset: (-13) as i32,
                        y_offset: 0,
                        bounds: crate::geom::Rect { x: 0, y: 0, w: 26, h: 16 },
                        is_colliding: false,
                        left: false,
                        right: false,
                        top: false,
                        bottom: false,
                        on_collide: None,
                    },
                ),
                hitbox: None,
            },
        ),
        light: Some(Light { radius: 0, color: Color { r: 255, g: 255, b: 255 }, intensity: 0 }),
        ..EntityRecord {
            pos: None,
            sprite: None,
            colliders: None,
            light: None,
            player: None,
            enemy: None,
            projectile: None,
            interactable: None,
            proximity: None,
            emitter: None,
            floor: None,
            wall: None,
            prop: None,
            is_static: None,
        }
    }
}

/// Spawns the player and stocks the starting inventory: a test item, a
/// perfectly generic item, a torch and a chemlight.
pub fn spawn_player(w: &mut World, pos: Vec2) -> (e: Entity)
    requires
        world_wf(*old(w)),
        pos_wf(Pos { x: pos.x, y: pos.y }),
        crate::inventory::occ_count(old(w).ctx.player_inventory.items@) <= 4,
    ensures
        world_wf(*final(w)),
        final(w).ents@.len() == old(w).ents@.len() + 1,
        e.id == old(w).ents@.len(),
        final(w).live(e.id as int),
        final(w).rec(e.id as int) == player_record(
            pos,
            final(w).rec(e.id as int).sprite->Some_0.anim,
            old(w).ctx.player_fire_cooldown,
        ),
        final(w).ctx == (Ctx { player_inventory: final(w).ctx.player_inventory, ..old(w).ctx }),
        final(w).ctx.despawn_queue@ == old(w).ctx.despawn_queue@,
        forall|i: int| 0 <= i < old(w).ents@.len() ==> final(w).ents@[i] == old(w).ents@[i],
        final(w).ctx.player_inventory.num_items == old(w).ctx.player_inventory.num_items + 4,
        final(w).ctx.player_inventory.active_item_idx == old(
            w,
        ).ctx.player_inventory.active_item_idx,
        ({
            let s0 = old(w).ctx.player_inventory.items@;
            let s1 = s0.update(
                crate::inventory::first_free_from(s0, 0),
                Some(Item::Test(TestItem {  })),
            );
            let s2 = s1.update(
                crate::inventory::first_free_from(s1, 0),
                Some(Item::PerfectlyGeneric(PerfectlyGenericItem {  })),
            );
            let s3 = s2.update(
                crate::inventory::first_free_from(s2, 0),
                Some(Item::Torch(Torch { is_lit: false, ticks_max: 3600, ticks_left: 3600 })),
            );
            let s4 = s3.update(
                crate::inventory::first_free_from(s3, 0),
                Some(Item::Chemlight(Chemlight { uses_left: 5 })),
            );
            final(w).ctx.player_inventory.items@ == s4
        }),
{
    let anim = anim_or_sentinel(w, "player_idle");
    let mut rec = EntityRecord::empty();
    rec.player = Some(Player { fire_cooldown: w.ctx.player_fire_cooldown, can_fire_in: 0 });
    rec.pos = Some(Pos { x: pos.x, y: pos.y });
    rec.sprite = Some(AnimatedSprite::new((-16, -48, 32, 64), 15, anim, None));
    rec.colliders = Some(
        ColliderGroup { nav: Some(Collider::new((-13, 0, 26, 16), CH_NAV, CH_NAV, None)), hitbox: None },
    );
    rec.light = Some(Light { radius: 0, color: Color { r: 255, g: 255, b: 255 }, intensity: 0 });
    let e = w.spawn(rec);
    let ok1 = w.ctx.player_inventory.insert(Item::Test(TestItem {}));
    let ok2 = w.ctx.player_inventory.insert(Item::PerfectlyGeneric(PerfectlyGenericItem {}));
    let ok3 = w.ctx.player_inventory.insert(Item::Torch(Torch::new()));
    let ok4 = w.ctx.player_inventory.insert(Item::Chemlight(Chemlight::new()));
    assert(ok1 && ok2 && ok3 && ok4);
    e
}

/// Spawns a floor tile.
pub fn spawn_floor(w: &mut World, pos: Pos) -> (e: Entity)
    requires
        world_wf(*old(w)),
        pos_wf(pos),
    ensures
        world_wf(*final(w)),
        final(w).ents@.len() == old(w).ents@.len() + 1,
        e.id == old(w).ents@.len(),
        final(w).live(e.id as int),
        final(w).rec(e.id as int).floor is Some,
        final(w).rec(e.id as int).pos == Some(pos),
        final(w).rec(e.id as int).colliders is None,
        forall|i: int| 0 <= i < old(w).ents@.len() ==> final(w).ents@[i] == old(w).ents@[i],
        final(w).ctx == old(w).ctx,
{
    let anim = anim_or_sentinel(w, "floor");
    let mut rec = EntityRecord::empty();
    rec.floor = Some(Floor {});
    rec.pos = Some(pos);
    rec.sprite = Some(AnimatedSprite::new((-16, -16, 32, 32), 0, anim, None));
    w.spawn(rec)
}

/// Spawns a wall: static, solid, and a light occluder.
pub fn spawn_wall(w: &mut World, pos: Pos) -> (e: Entity)
    requires
        world_wf(*old(w)),
        pos_wf(pos),
    ensures
        world_wf(*final(w)),
        final(w).ents@.len() == old(w).ents@.len() + 1,
        e.id == old(w).ents@.len(),
        final(w).live(e.id as int),
        final(w).rec(e.id as int).wall is Some,
        final(w).rec(e.id as int).is_static is Some,
        final(w).rec(e.id as int).pos == Some(pos),
        final(w).rec(e.id as int).colliders == Some(
            ColliderGroup {
                nav: Some(
                    Collider {
                        channels: CH_NAV,
                        collides_with: CH_NAV | CH_HITBOX,
                        x_offset: (-16) as i32,
                        y_offset: (-14) as i32,
                        bounds: crate::geom::Rect { x: 0, y: 0, w: 32, h: 30 },
                        is_colliding: false,
                        left: false,
                        right: false,
                        top: false,
                        bottom: false,
                        on_collide: None,
                    },
                ),
                hitbox: None,
            },
        ),
        forall|i: int| 0 <= i < old(w).ents@.len() ==> final(w).ents@[i] == old(w).ents@[i],
        final(w).ctx == old(w).ctx,
{
    let anim = anim_or_sentinel(w, "wall");
    let mut rec = EntityRecord::empty();
    rec.is_static = Some(Static {});
    rec.wall = Some(Wall {});
    rec.pos = Some(pos);
    rec.sprite = Some(AnimatedSprite::new((-16, -48, 32, 64), 0, anim, None));
    rec.colliders = Some(
        ColliderGroup {
            nav: Some(Collider::new((-16, -14, 32, 30), CH_NAV, CH_NAV | CH_HITBOX, None)),
            hitbox: None,
        },
    );
    w.spawn(rec)
}

/// Spawns a standing torch: an animated sprite with a warm light.
pub fn spawn_torch(w: &mut World, pos: Pos) -> (e: Entity)
    requires
        world_wf(*old(w)),
        pos_wf(pos),
    ensures
        world_wf(*final(w)),
        final(w).ents@.len() == old(w).ents@.len() + 1,
        final(w).live(e.id as int),
        e.id == old(w).ents@.len(),
        final(w).rec(e.id as int).light == Some(
            Light { radius: 120, color: Color { r: 255, g: 255, b: 0 }, intensity: 1000 },
        ),
        final(w).rec(e.id as int).pos == Some(pos),
        forall|i: int| 0 <= i < old(w).ents@.len() ==> final(w).ents@[i] == old(w).ents@[i],
        final(w).ctx == old(w).ctx,
{
    let anim = anim_or_sentinel(w, "torch");
    let mut rec = EntityRecord::empty();
    rec.pos = Some(pos);
    rec.sprite = Some(AnimatedSprite::new((-16, -16, 32, 32), 5, anim, None));
    rec.light = Some(Light { radius: 120, color: Color { r: 255, g: 255, b: 0 }, intensity: 1000 });
    w.spawn(rec)
}

/// Spawns a lever wired to the particle emitter: interacting flips the
/// lever's sprite and toggles the emitter and its light.
pub fn spawn_lever(w: &mut World, pos: Pos) -> (e: Entity)
    requires
        world_wf(*old(w)),
        pos_wf(pos),
    ensures
        world_wf(*final(w)),
        final(w).ents@.len() == old(w).ents@.len() + 1,
        final(w).live(e.id as int),
        e.id == old(w).ents@.len(),
        final(w).rec(e.id as int).interactable == Some(
            Interactable { on_interact: InteractAction::ToggleEmitter { lit_radius: 60 } },
        ),
        final(w).rec(e.id as int).pos == Some(pos),
        final(w).rec(e.id as int).proximity is Some,
        forall|i: int| 0 <= i < old(w).ents@.len() ==> final(w).ents@[i] == old(w).ents@[i],
        final(w).ctx == old(w).ctx,
{
    let anim = anim_or_sentinel(w, "lever");
    let bang = anim_or_sentinel(w, "bang");
    let mut rec = EntityRecord::empty();
    rec.pos = Some(pos);
    rec.sprite = Some(AnimatedSprite::new((-16, -16, 32, 32), 0, anim, None));
    rec.interactable = Some(
        Interactable { on_interact: InteractAction::ToggleEmitter { lit_radius: 60 } },
    );
    rec.proximity = Some(
        ProximityIndicator {
            range: 64000,
            sprite: AnimatedSprite::new((-16, -16, 16, 16), 15, bang, Some(255)),
        },
    );
    w.spawn(rec)
}

/// Spawns the particle emitter prop, initially inactive and dark.
pub fn spawn_particle_emitter(w: &mut World, pos: Pos) -> (e: Entity)
    requires
        world_wf(*old(w)),
        pos_wf(pos),
    ensures
        world_wf(*final(w)),
        final(w).ents@.len() == old(w).ents@.len() + 1,
        final(w).live(e.id as int),
        e.id == old(w).ents@.len(),
        final(w).rec(e.id as int).emitter == Some(
            ParticleEmitter { is_active: false, particle_cooldown: 1, particle_ticks_left: 0 },
        ),
        final(w).rec(e.id as int).light == Some(
            Light { radius: 0, color: Color { r: 150, g: 150, b: 150 }, intensity: 1000 },
        ),
        final(w).rec(e.id as int).pos == Some(pos),
        forall|i: int| 0 <= i < old(w).ents@.len() ==> final(w).ents@[i] == old(w).ents@[i],
        final(w).ctx == old(w).ctx,
{
    let anim = anim_or_sentinel(w, "particle_emitter");
    let mut rec = EntityRecord::empty();
    rec.prop = Some(Prop {});
    rec.pos = Some(pos);
    rec.sprite = Some(AnimatedSprite::new((-16, -16, 32, 32), 0, anim, None));
    rec.emitter = Some(
        ParticleEmitter { is_active: false, particle_cooldown: 1, particle_ticks_left: 0 },
    );
    rec.light = Some(Light { radius: 0, color: Color { r: 150, g: 150, b: 150 }, intensity: 1000 });
    w.spawn(rec)
}

/// Spawns an enemy: a solid body that chases the player and a hitbox that
/// asks to despawn its owner when a projectile strikes it.
pub fn spawn_enemy(w: &mut World, pos: Pos) -> (e: Entity)
    requires
        world_wf(*old(w)),
        pos_wf(pos),
    ensures
        world_wf(*final(w)),
        final(w).ents@.len() == old(w).ents@.len() + 1,
        final(w).live(e.id as int),
        e.id == old(w).ents@.len(),
        final(w).rec(e.id as int).enemy is Some,
        final(w).rec(e.id as int).pos == Some(pos),
        final(w).rec(e.id as int).colliders->Some_0.hitbox->Some_0.on_collide == Some(
            CollisionResponse::DespawnSelfOnProjectile,
        ),
        forall|i: int| 0 <= i < old(w).ents@.len() ==> final(w).ents@[i] == old(w).ents@[i],
        final(w).ctx == old(w).ctx,
{
    let anim = anim_or_sentinel(w, "enemy_walk");
    let mut rec = EntityRecord::empty();
    rec.enemy = Some(Enemy {});
    rec.pos = Some(pos);
    rec.sprite = Some(AnimatedSprite::new((-32, -40, 64, 64), 30, anim, None));
    rec.colliders = Some(
        ColliderGroup {
            nav: Some(Collider::new((-10, 6, 22, 10), CH_NAV, CH_NAV, None)),
            hitbox: Some(
                Collider::new(
                    (-16, -16, 32, 32),
                    CH_HITBOX,
                    CH_HITBOX,
                    Some(CollisionResponse::DespawnSelfOnProjectile),
                ),
            ),
        },
    );
    rec.light = Some(
        Light { radius: 30, color: Color { r: 200, g: 200, b: 200 }, intensity: 1000 },
    );
    w.spawn(rec)
}

/// Spawns a bullet at `pos` with the aim direction `velocity_normal` (unit
/// scale, in subunits) scaled by the configured bullet speed; it despawns on
/// any contact. A diagonal aim passed raw, as the player system passes it,
/// flies faster than an axis-aligned one by the length of its direction.
pub fn spawn_bullet(w: &mut World, pos: Vec2, velocity_normal: Vec2) -> (e: Entity)
    requires
        world_wf(*old(w)),
        pos_wf(Pos { x: pos.x, y: pos.y }),
        vec2_bounded(velocity_normal, 1500),
    ensures
        world_wf(*final(w)),
        final(w).ents@.len() == old(w).ents@.len() + 1,
        final(w).live(e.id as int),
        e.id == old(w).ents@.len(),
        final(w).rec(e.id as int).projectile is Some,
        final(w).rec(e.id as int).projectile->Some_0.ticks_left == old(w).ctx.bullet_lifetime,
        final(w).rec(e.id as int).projectile->Some_0.velocity == (Vec2 {
            x: crate::math::div_trunc(
                velocity_normal.x * old(w).ctx.bullet_speed,
                1000,
            ) as i64,
            y: crate::math::div_trunc(
                velocity_normal.y * old(w).ctx.bullet_speed,
                1000,
            ) as i64,
        }),
        final(w).rec(e.id as int).pos == Some(Pos { x: pos.x, y: pos.y }),
        final(w).rec(e.id as int).colliders is Some,
        final(w).rec(e.id as int).colliders->Some_0.nav is Some,
        final(w).rec(e.id as int).colliders->Some_0.nav->Some_0.on_collide == Some(
            CollisionResponse::DespawnSelf,
        ),
        final(w).rec(e.id as int).player is None,
        final(w).rec(e.id as int).emitter is None,
        final(w).rec(e.id as int).is_static is None,
        forall|i: int| 0 <= i < old(w).ents@.len() ==> final(w).ents@[i] == old(w).ents@[i],
        final(w).ctx == old(w).ctx,
{
    let anim = anim_or_sentinel(w, "bullet");
    proof {
        crate::math::lemma_mul_velocity_bound(velocity_normal.x as int, w.ctx.bullet_speed as int);
        crate::math::lemma_mul_velocity_bound(velocity_normal.y as int, w.ctx.bullet_speed as int);
    }
    let velocity = velocity_normal.scaled(w.ctx.bullet_speed);
    let mut rec = EntityRecord::empty();
    rec.projectile = Some(Projectile { velocity, ticks_left: w.ctx.bullet_lifetime });
    rec.pos = Some(Pos { x: pos.x, y: pos.y });
    rec.sprite = Some(AnimatedSprite::new((-8, -8, 16, 16), 10, anim, None));
    rec.colliders = Some(
        ColliderGroup {
            nav: Some(
                Collider::new(
                    (-6, -6, 12, 12),
                    CH_NONE,
                    CH_HITBOX | CH_NAV,
                    Some(CollisionResponse::DespawnSelf),
                ),
            ),
            hitbox: None,
        },
    );
    rec.light = Some(Light { radius: 20, color: Color { r: 160, g: 150, b: 10 }, intensity: 1000 });
    w.spawn(rec)
}

/// How many wall slots the first `x` columns leave open: the doorways at
/// columns 7 and 8 of the middle run and column 12 of the lower run.
pub open spec fn wall_gaps(x: int) -> int {
    (if x > 7 {
        1int
    } else {
        0int
    }) + (if x > 8 {
        1int
    } else {
        0int
    }) + (if x > 12 {
        1int
    } else {
        0int
    })
}

/// Populates the starting room: a 64-by-64 floor, the outer and inner wall
/// runs with their doorways, two torches, the particle emitter, its lever,
/// and the player with the starting inventory — 4293 entities in all.
pub fn init(w: &mut World)
    requires
        world_wf(*old(w)),
        crate::inventory::occ_count(old(w).ctx.player_inventory.items@) <= 4,
    ensures
        world_wf(*final(w)),
        final(w).ctx.despawn_queue@ == old(w).ctx.despawn_queue@,
        final(w).ents@.len() == old(w).ents@.len() + 4293,
        ({
            let pid = old(w).ents@.len() + 4292;
            &&& final(w).live(pid as int)
            &&& final(w).rec(pid as int) == player_record(
                Vec2 { x: 400_000, y: 400_000 },
                final(w).rec(pid as int).sprite->Some_0.anim,
                old(w).ctx.player_fire_cooldown,
            )
        }),
        final(w).ctx.particle_emitter_entity is Some,
        ({
            let te = final(w).ctx.particle_emitter_entity->Some_0;
            &&& final(w).live(te.id as int)
            &&& final(w).rec(te.id as int).emitter == Some(
                ParticleEmitter { is_active: false, particle_cooldown: 1, particle_ticks_left: 0 },
            )
        }),
        final(w).ctx.player_inventory.num_items == old(w).ctx.player_inventory.num_items + 4,
        ({
            let s0 = old(w).ctx.player_inventory.items@;
            let s1 = s0.update(
                crate::inventory::first_free_from(s0, 0),
                Some(Item::Test(TestItem {  })),
            );
            let s2 = s1.update(
                crate::inventory::first_free_from(s1, 0),
                Some(Item::PerfectlyGeneric(PerfectlyGenericItem {  })),
            );
            let s3 = s2.update(
                crate::inventory::first_free_from(s2, 0),
                Some(Item::Torch(Torch { is_lit: false, ticks_max: 3600, ticks_left: 3600 })),
            );
            let s4 = s3.update(
                crate::inventory::first_free_from(s3, 0),
                Some(Item::Chemlight(Chemlight { uses_left: 5 })),
            );
            final(w).ctx.player_inventory.items@ == s4
        }),
{
    let n0 = w.ents.len();
    let mut x: i64 = 0;
    while x < 64
        invariant
            world_wf(*w),
            0 <= x <= 64,
            w.ctx == old(w).ctx,
            w.ents@.len() == n0 + 64 * x,
        decreases 64 - x,
    {
        let mut y: i64 = 0;
        while y < 64
            invariant
                world_wf(*w),
                0 <= x <= 64,
                0 <= y <= 64,
                w.ctx == old(w).ctx,
                w.ents@.len() == n0 + 64 * x + y,
            decreases 64 - y,
        {
            let p = tile_to_pos(x, y);
            spawn_floor(w, p);
            y = y + 1;
        }
        x = x + 1;
    }

    let base = w.ents.len();
    let mut x: i64 = 0;
    while x < 64
        invariant
            world_wf(*w),
            0 <= x <= 64,
            w.ctx == old(w).ctx,
            base == n0 + 4096,
            w.ents@.len() == base + 3 * x - wall_gaps(x as int),
        decreases 64 - x,
    {
        spawn_wall(w, tile_to_pos(x, 1));
        if x != 7 && x != 8 {
            spawn_wall(w, tile_to_pos(x, 8));
        }
        if x != 12 {
            spawn_wall(w, tile_to_pos(x, 18));
        }
        x = x + 1;
    }

    spawn_wall(w, tile_to_pos(16, 15));
    spawn_wall(w, tile_to_pos(16, 16));
    spawn_wall(w, tile_to_pos(16, 17));

    spawn_torch(w, Pos::new(350_000, 570_000));
    spawn_torch(w, Pos::new(600_000, 200_000));

    let emitter = spawn_particle_emitter(w, Pos::new(540_000, 640_000));
    w.ctx.particle_emitter_entity = Some(emitter);
    let ghost w_emit = *w;

    spawn_lever(w, Pos::new(200_000, 200_000));

    spawn_player(w, Vec2::new(400_000, 400_000));
    proof {
        assert(w.ents@[emitter.id as int] == w_emit.ents@[emitter.id as int]);
    }
}

} // verus!

verus! {

/// Effects the item layer can request are bounded like the lights they set.
pub open spec fn effect_wf(e: WorldEffect) -> bool {
    match e {
        WorldEffect::SetPlayerLightRadius { radius } => radius <= 2000,
        WorldEffect::SetPlayerLight { color, radius, intensity } => radius <= 2000 && intensity
            <= 1000,
        WorldEffect::SpawnChemlight { radius, color } => radius <= 2000,
    }
}

/// A light after the first `k` effects: radius and full-light effects fold
/// left to right, spawns leave it alone.
pub open spec fn light_after_effects(l: Light, effects: Seq<WorldEffect>, k: int) -> Light
    decreases k,
{
    if k <= 0 {
        l
    } else {
        let l1 = light_after_effects(l, effects, k - 1);
        match effects[k - 1] {
            WorldEffect::SetPlayerLightRadius { radius } => Light { radius, ..l1 },
            WorldEffect::SetPlayerLight { color, radius, intensity } => Light {
                radius,
                color,
                intensity,
            },
            WorldEffect::SpawnChemlight { .. } => l1,
        }
    }
}

/// How many of the first `k` effects spawn an entity.
pub open spec fn count_spawns(effects: Seq<WorldEffect>, k: int) -> int
    decreases k,
{
    if k <= 0 {
        0
    } else {
        count_spawns(effects, k - 1) + if effects[k - 1] is SpawnChemlight {
            1int
        } else {
            0int
        }
    }
}

/// The spawn count is never negative and never exceeds the prefix length.
pub proof fn lemma_count_spawns_bounds(effects: Seq<WorldEffect>, k: int)
    ensures
        0 <= count_spawns(effects, k) <= (if k <= 0 { 0int } else { k }),
    decreases k,
{
    if k > 0 {
        lemma_count_spawns_bounds(effects, k - 1);
    }
}

/// The lights of the entities the first `k` effects spawn, in order.
pub open spec fn spawned_lights(effects: Seq<WorldEffect>, k: int) -> Seq<Light>
    decreases k,
{
    if k <= 0 {
        Seq::empty()
    } else {
        spawned_lights(effects, k - 1) + match effects[k - 1] {
            WorldEffect::SpawnChemlight { radius, color } => seq![
                Light { radius, color, intensity: 1000 },
            ],
            _ => Seq::empty(),
        }
    }
}

/// A record dropped by a chemlight use: a bare glowing sprite at the
/// player's cached position.
pub open spec fn chemlight_shaped(r: EntityRecord, p: Pos) -> bool {
    &&& r.pos == Some(p)
    &&& r.light is Some
    &&& r.sprite is Some
    &&& r.player is None
    &&& r.colliders is None
    &&& r.projectile is None
    &&& r.emitter is None
    &&& r.interactable is None
    &&& r.is_static is None
}

/// Applies the world effects the item layer requested, in order: player
/// light updates fold onto every entity that has both a player and a light,
/// and each chemlight spawn appends one glowing entity at the player's
/// cached position.
pub fn apply_effects(w: &mut World, effects: &Vec<WorldEffect>)
    requires
        world_wf(*old(w)),
        forall|k: int| 0 <= k < effects@.len() ==> effect_wf(#[trigger] effects@[k]),
    ensures
        world_wf(*final(w)),
        final(w).ents@.len() == old(w).ents@.len() + count_spawns(
            effects@,
            effects@.len() as int,
        ),
        forall|i: int|
            0 <= i < old(w).ents@.len() ==> final(w).ents@[i] == match old(w).ents@[i] {
                Some(r) => {
                    if r.player is Some && r.light is Some {
                        Some(
                            EntityRecord {
                                light: Some(
                                    light_after_effects(
                                        r.light->Some_0,
                                        effects@,
                                        effects@.len() as int,
                                    ),
                                ),
                                ..r
                            },
                        )
                    } else {
                        Some(r)
                    }
                },
                None => None,
            },
        forall|i: int|
            old(w).ents@.len() <= i < final(w).ents@.len() ==> final(w).live(i)
                && chemlight_shaped(#[trigger] final(w).rec(i), old(w).ctx.player_pos)
                && final(w).rec(i).light == Some(
                spawned_lights(effects@, effects@.len() as int)[i - old(w).ents@.len()],
            ),
        final(w).ctx == old(w).ctx,
{
    let ghost ents0 = w.ents@;
    let n0 = w.ents.len();
    let m = effects.len();
    let mut k: usize = 0;
    while k < m
        invariant
            world_wf(*w),
            m == effects@.len(),
            k <= m,
            n0 == ents0.len(),
            forall|kk: int| 0 <= kk < effects@.len() ==> effect_wf(#[trigger] effects@[kk]),
            w.ents@.len() == n0 + count_spawns(effects@, k as int),
            forall|i: int|
                0 <= i < n0 ==> w.ents@[i] == match ents0[i] {
                    Some(r) => {
                        if r.player is Some && r.light is Some {
                            Some(
                                EntityRecord {
                                    light: Some(
                                        light_after_effects(r.light->Some_0, effects@, k as int),
                                    ),
                                    ..r
                                },
                            )
                        } else {
                            Some(r)
                        }
                    },
                    None => None,
                },
            spawned_lights(effects@, k as int).len() == count_spawns(effects@, k as int),
            forall|i: int|
                n0 <= i < w.ents@.len() ==> w.live(i) && chemlight_shaped(
                    #[trigger] w.rec(i),
                    old(w).ctx.player_pos,
                ) && w.rec(i).light == Some(spawned_lights(effects@, k as int)[i - n0]),
            w.ctx == old(w).ctx,
        decreases m - k,
    {
        let eff = effects[k];
        let ghost w_prev = *w;
        match eff {
            WorldEffect::SetPlayerLightRadius { radius } => {
                set_player_light_radius(w, radius);
            },
            WorldEffect::SetPlayerLight { color, radius, intensity } => {
                set_player_light(w, color, radius, intensity);
            },
            WorldEffect::SpawnChemlight { radius, color } => {
                let anim = anim_or_sentinel(w, "chemlight");
                let mut rec = EntityRecord::empty();
                rec.pos = Some(w.ctx.player_pos);
                rec.sprite = Some(AnimatedSprite::new((-16, -16, 32, 32), 0, anim, None));
                rec.light = Some(Light { radius, color, intensity: 1000 });
                w.spawn(rec);
            },
        }
        proof {
            assert forall|i: int|
                0 <= i < n0 implies w.ents@[i] == (match ents0[i] {
                Some(r) => {
                    if r.player is Some && r.light is Some {
                        Some(
                            EntityRecord {
                                light: Some(
                                    light_after_effects(r.light->Some_0, effects@, k as int + 1),
                                ),
                                ..r
                            },
                        )
                    } else {
                        Some(r)
                    }
                },
                None => None,
            }) by {
                lemma_count_spawns_bounds(effects@, k as int);
                assert(i < w_prev.ents@.len());
                assert(w_prev.ents@[i] == (match ents0[i] {
                    Some(r) => {
                        if r.player is Some && r.light is Some {
                            Some(
                                EntityRecord {
                                    light: Some(
                                        light_after_effects(r.light->Some_0, effects@, k as int),
                                    ),
                                    ..r
                                },
                            )
                        } else {
                            Some(r)
                        }
                    },
                    None => None,
                }));
                assert(effects@[k as int] == eff);
                match eff {
                    WorldEffect::SetPlayerLightRadius { radius } => {
                        assert(w.ents@[i] == (match w_prev.ents@[i] {
                            Some(r) => {
                                if r.player is Some && r.light is Some {
                                    Some(
                                        EntityRecord {
                                            light: Some(Light { radius, ..r.light->Some_0 }),
                                            ..r
                                        },
                                    )
                                } else {
                                    Some(r)
                                }
                            },
                            None => None,
                        }));
                    },
                    WorldEffect::SetPlayerLight { color, radius, intensity } => {
                        assert(w.ents@[i] == (match w_prev.ents@[i] {
                            Some(r) => {
                                if r.player is Some && r.light is Some {
                                    Some(
                                        EntityRecord {
                                            light: Some(Light { radius, color, intensity }),
                                            ..r
                                        },
                                    )
                                } else {
                                    Some(r)
                                }
                            },
                            None => None,
                        }));
                    },
                    WorldEffect::SpawnChemlight { .. } => {
                        assert(w.ents@[i] == w_prev.ents@[i]);
                    },
                }
            }
            assert forall|i: int|
                n0 <= i < w.ents@.len() implies w.live(i) && chemlight_shaped(
                #[trigger] w.rec(i),
                old(w).ctx.player_pos,
            ) && w.rec(i).light == Some(spawned_lights(effects@, k as int + 1)[i - n0]) by {
                assert(effects@[k as int] == eff);
                if i < w_prev.ents@.len() {
                    assert(w_prev.live(i) && chemlight_shaped(w_prev.rec(i), old(w).ctx.player_pos));
                    assert(w_prev.rec(i).light == Some(spawned_lights(effects@, k as int)[i - n0]));
                    match eff {
                        WorldEffect::SpawnChemlight { .. } => {
                            assert(w.ents@[i] == w_prev.ents@[i]);
                        },
                        _ => {
                            assert(w.ents@[i] == (match w_prev.ents@[i] {
                                Some(r) => {
                                    if r.player is Some && r.light is Some {
                                        w.ents@[i]
                                    } else {
                                        Some(r)
                                    }
                                },
                                None => None,
                            }));
                            assert(w_prev.rec(i).player is None);
                        },
                    }
                }
            }
        }
        k = k + 1;
    }
}

/// Sets the radius of every light on a player entity.
fn set_player_light_radius(w: &mut World, radius: u16)
    requires
        world_wf(*old(w)),
        radius <= 2000,
    ensures
        world_wf(*final(w)),
        final(w).ents@.len() == old(w).ents@.len(),
        forall|i: int|
            0 <= i < old(w).ents@.len() ==> final(w).ents@[i] == match old(w).ents@[i] {
                Some(r) => {
                    if r.player is Some && r.light is Some {
                        Some(
                            EntityRecord {
                                light: Some(Light { radius, ..r.light->Some_0 }),
                                ..r
                            },
                        )
                    } else {
                        Some(r)
                    }
                },
                None => None,
            },
        final(w).ctx == old(w).ctx,
{
    let n = w.ents.len();
    let mut i: usize = 0;
    while i < n
        invariant
            world_wf(*w),
            n == w.ents@.len() == old(w).ents@.len(),
            i <= n,
            radius <= 2000,
            forall|j: int| i <= j < n ==> w.ents@[j] == old(w).ents@[j],
            forall|j: int|
                0 <= j < i ==> w.ents@[j] == match old(w).ents@[j] {
                    Some(r) => {
                        if r.player is Some && r.light is Some {
                            Some(
                                EntityRecord {
                                    light: Some(Light { radius, ..r.light->Some_0 }),
                                    ..r
                                },
                            )
                        } else {
                            Some(r)
                        }
                    },
                    None => None,
                },
            w.ctx == old(w).ctx,
        decreases n - i,
    {
        match w.ents[i] {
            Some(r) => {
                if r.player.is_some() && r.light.is_some() {
                    let mut rec = r;
                    match rec.light {
                        Some(l) => {
                            rec.light = Some(Light { radius, color: l.color, intensity: l.intensity });
                        },
                        None => {},
                    }
                    w.ents[i] = Some(rec);
                }
            },
            None => {},
        }
        i = i + 1;
    }
}

/// Replaces every player entity's light outright.
fn set_player_light(w: &mut World, color: Color, radius: u16, intensity: u16)
    requires
        world_wf(*old(w)),
        radius <= 2000,
        intensity <= 1000,
    ensures
        world_wf(*final(w)),
        final(w).ents@.len() == old(w).ents@.len(),
        forall|i: int|
            0 <= i < old(w).ents@.len() ==> final(w).ents@[i] == match old(w).ents@[i] {
                Some(r) => {
                    if r.player is Some && r.light is Some {
                        Some(EntityRecord { light: Some(Light { radius, color, intensity }), ..r })
                    } else {
                        Some(r)
                    }
                },
                None => None,
            },
        final(w).ctx == old(w).ctx,
{
    let n = w.ents.len();
    let mut i: usize = 0;
    while i < n
        invariant
            world_wf(*w),
            n == w.ents@.len() == old(w).ents@.len(),
            i <= n,
            radius <= 2000,
            intensity <= 1000,
            forall|j: int| i <= j < n ==> w.ents@[j] == old(w).ents@[j],
            forall|j: int|
                0 <= j < i ==> w.ents@[j] == match old(w).ents@[j] {
                    Some(r) => {
                        if r.player is Some && r.light is Some {
                            Some(
                                EntityRecord {
                                    light: Some(Light { radius, color, intensity }),
                                    ..r
                                },
                            )
                        } else {
                            Some(r)
                        }
                    },
                    None => None,
                },
            w.ctx == old(w).ctx,
        decreases n - i,
    {
        match w.ents[i] {
            Some(r) => {
                if r.player.is_some() && r.light.is_some() {
                    let mut rec = r;
                    rec.light = Some(Light { radius, color, intensity });
                    w.ents[i] = Some(rec);
                }
            },
            None => {},
        }
        i = i + 1;
    }
}

} // verus!

verus! {

/// Whether the projectile system applies to a record.
pub open spec fn proj_applies(r: EntityRecord) -> bool {
    r.projectile is Some && r.pos is Some
}

/// A record after the projectile system: expired projectiles are left for
/// the despawn queue; live ones advance by their velocity and burn a tick.
pub open spec fn proj_rec_after(r: EntityRecord) -> EntityRecord {
    if proj_applies(r) {
        let pr = r.projectile->Some_0;
        let p = r.pos->Some_0;
        if pr.ticks_left == 0 {
            r
        } else {
            EntityRecord {
                pos: Some(
                    Pos {
                        x: crate::math::clamped_coord(p.x + pr.velocity.x) as i64,
                        y: crate::math::clamped_coord(p.y + pr.velocity.y) as i64,
                    },
                ),
                projectile: Some(
                    Projectile { velocity: pr.velocity, ticks_left: (pr.ticks_left - 1) as usize },
                ),
                ..r
            }
        }
    } else {
        r
    }
}

/// The despawns the projectile system requests from the first `n` entities:
/// every expired projectile, in entity order.
pub open spec fn proj_pushes_upto(ents: Seq<Option<EntityRecord>>, n: int) -> Seq<Entity>
    decreases n,
{
    if n <= 0 {
        Seq::empty()
    } else {
        proj_pushes_upto(ents, n - 1) + match ents[n - 1] {
            Some(r) => if proj_applies(r) && r.projectile->Some_0.ticks_left == 0 {
                seq![Entity { id: (n - 1) as usize }]
            } else {
                Seq::empty()
            },
            None => Seq::empty(),
        }
    }
}

/// Projectile system: every entity with a projectile and a position either
/// moves by its velocity and burns a tick of lifetime, or, if its lifetime
/// is spent, is enqueued for despawn.
pub fn update_projectiles(w: &mut World)
    requires
        world_wf(*old(w)),
    ensures
        world_wf(*final(w)),
        final(w).ents@.len() == old(w).ents@.len(),
        forall|i: int|
            0 <= i < old(w).ents@.len() ==> final(w).ents@[i] == match old(w).ents@[i] {
                Some(r) => Some(proj_rec_after(r)),
                None => None,
            },
        final(w).ctx.despawn_queue@ == old(w).ctx.despawn_queue@ + proj_pushes_upto(
            old(w).ents@,
            old(w).ents@.len() as int,
        ),
        crate::world::ctx_fields_eq_but_queue(final(w).ctx, old(w).ctx),
{
    let ghost ents0 = w.ents@;
    let n = w.ents.len();
    let mut i: usize = 0;
    while i < n
        invariant
            world_wf(*w),
            n == w.ents@.len() == ents0.len(),
            i <= n,
            forall|j: int| i <= j < n ==> w.ents@[j] == ents0[j],
            forall|j: int|
                0 <= j < i ==> w.ents@[j] == match ents0[j] {
                    Some(r) => Some(proj_rec_after(r)),
                    None => None,
                },
            w.ctx.despawn_queue@ == old(w).ctx.despawn_queue@ + proj_pushes_upto(ents0, i as int),
            crate::world::ctx_fields_eq_but_queue(w.ctx, old(w).ctx),
        decreases n - i,
    {
        match w.ents[i] {
            Some(r) => {
                if r.projectile.is_some() && r.pos.is_some() {
                    let pr = match r.projectile {
                        Some(pr) => pr,
                        None => Projectile { velocity: Vec2 { x: 0, y: 0 }, ticks_left: 0 },
                    };
                    let p = match r.pos {
                        Some(p) => p,
                        None => Pos { x: 0, y: 0 },
                    };
                    if pr.ticks_left == 0 {
                        w.ctx.despawn_queue.push(Entity { id: i });
                    } else {
                        let mut rec = r;
                        rec.pos = Some(
                            Pos {
                                x: crate::math::add_coord(p.x, pr.velocity.x),
                                y: crate::math::add_coord(p.y, pr.velocity.y),
                            },
                        );
                        rec.projectile = Some(
                            Projectile { velocity: pr.velocity, ticks_left: pr.ticks_left - 1 },
                        );
                        w.ents[i] = Some(rec);
                    }
                }
            },
            None => {},
        }
        i = i + 1;
        proof {
            assert(w.ctx.despawn_queue@ =~= old(w).ctx.despawn_queue@ + proj_pushes_upto(
                ents0,
                i as int,
            ));
        }
    }
}

/// Whether the spawner system applies to a record.
pub open spec fn emitter_applies(r: EntityRecord) -> bool {
    r.emitter is Some && r.pos is Some
}

/// Whether an emitter releases particles this tick.
pub open spec fn emitter_fires(r: EntityRecord) -> bool {
    emitter_applies(r) && r.emitter->Some_0.is_active && r.emitter->Some_0.particle_ticks_left == 0
}

/// A record after the spawner system: an active emitter either releases (and
/// rewinds its cooldown) or counts it down; inactive emitters idle.
pub open spec fn emitter_rec_after(r: EntityRecord) -> EntityRecord {
    if emitter_applies(r) && r.emitter->Some_0.is_active {
        let e = r.emitter->Some_0;
        if e.particle_ticks_left == 0 {
            EntityRecord {
                emitter: Some(ParticleEmitter { particle_ticks_left: e.particle_cooldown, ..e }),
                ..r
            }
        } else {
            EntityRecord {
                emitter: Some(
                    ParticleEmitter {
                        particle_ticks_left: (e.particle_ticks_left - 1) as u32,
                        ..e
                    },
                ),
                ..r
            }
        }
    } else {
        r
    }
}

/// How many of the first `n` entities fire their emitter this tick.
pub open spec fn count_firing(ents: Seq<Option<EntityRecord>>, n: int) -> int
    decreases n,
{
    if n <= 0 {
        0
    } else {
        count_firing(ents, n - 1) + match ents[n - 1] {
            Some(r) => if emitter_fires(r) {
                1int
            } else {
                0int
            },
            None => 0int,
        }
    }
}

/// The firing count is never negative.
pub proof fn lemma_count_firing_nonneg(ents: Seq<Option<EntityRecord>>, n: int)
    ensures
        count_firing(ents, n) >= 0,
    decreases n,
{
    if n > 0 {
        lemma_count_firing_nonneg(ents, n - 1);
    }
}

/// The positions of the particles the first `n` entities release this tick,
/// two per firing emitter, in entity order.
pub open spec fn particle_positions(ents: Seq<Option<EntityRecord>>, n: int) -> Seq<Pos>
    decreases n,
{
    if n <= 0 {
        Seq::empty()
    } else {
        particle_positions(ents, n - 1) + match ents[n - 1] {
            Some(r) => if emitter_fires(r) {
                seq![r.pos->Some_0, r.pos->Some_0]
            } else {
                Seq::empty()
            },
            None => Seq::empty(),
        }
    }
}

/// What an emitter releases: a short-lived resting-on-contact particle with
/// a small white light and a velocity drawn fresh each time, at most two
/// pixels per tick.
pub open spec fn particle_shaped(r: EntityRecord) -> bool {
    &&& r.projectile is Some
    &&& r.projectile->Some_0.ticks_left == 60
    &&& vec2_bounded(r.projectile->Some_0.velocity, 2000)
    &&& r.pos is Some
    &&& r.light == Some(Light { radius: 2, color: Color { r: 255, g: 255, b: 255 }, intensity: 1000 })
    &&& r.colliders is Some
    &&& r.colliders->Some_0.nav is Some
    &&& r.colliders->Some_0.nav->Some_0.on_collide == Some(CollisionResponse::HaltSelf)
    &&& r.emitter is None
    &&& r.player is None
    &&& r.is_static is None
}

/// Spawner system: each active emitter whose cooldown has run out releases
/// two particles at its own position with freshly drawn velocities, then
/// rewinds its cooldown; other active emitters count down. The velocities
/// are random: nothing more than their bound is promised.
pub fn update_spawners(w: &mut World)
    requires
        world_wf(*old(w)),
    ensures
        world_wf(*final(w)),
        final(w).ents@.len() == old(w).ents@.len() + 2 * count_firing(
            old(w).ents@,
            old(w).ents@.len() as int,
        ),
        forall|i: int|
            0 <= i < old(w).ents@.len() ==> final(w).ents@[i] == match old(w).ents@[i] {
                Some(r) => Some(emitter_rec_after(r)),
                None => None,
            },
        forall|i: int|
            old(w).ents@.len() <= i < final(w).ents@.len() ==> final(w).live(i) && particle_shaped(
                #[trigger] final(w).rec(i),
            ) && final(w).rec(i).pos == Some(
                particle_positions(old(w).ents@, old(w).ents@.len() as int)[i - old(
                    w,
                ).ents@.len()],
            ),
        final(w).ctx == old(w).ctx,
{
    let ghost ents0 = w.ents@;
    let n = w.ents.len();
    let mut i: usize = 0;
    while i < n
        invariant
            world_wf(*w),
            n == ents0.len(),
            i <= n,
            w.ents@.len() == n + 2 * count_firing(ents0, i as int),
            particle_positions(ents0, i as int).len() == 2 * count_firing(ents0, i as int),
            forall|j: int| i <= j < n ==> w.ents@[j] == ents0[j],
            forall|j: int|
                0 <= j < i ==> w.ents@[j] == match ents0[j] {
                    Some(r) => Some(emitter_rec_after(r)),
                    None => None,
                },
            forall|j: int|
                n <= j < w.ents@.len() ==> w.live(j) && particle_shaped(#[trigger] w.rec(j))
                    && w.rec(j).pos == Some(particle_positions(ents0, i as int)[j - n]),
            w.ctx == old(w).ctx,
        decreases n - i,
    {
        proof {
            lemma_count_firing_nonneg(ents0, i as int);
        }
        match w.ents[i] {
            Some(r) => {
                if r.emitter.is_some() && r.pos.is_some() {
                    let e = match r.emitter {
                        Some(e) => e,
                        None => ParticleEmitter {
                            is_active: false,
                            particle_cooldown: 0,
                            particle_ticks_left: 0,
                        },
                    };
                    let p = match r.pos {
                        Some(p) => p,
                        None => Pos { x: 0, y: 0 },
                    };
                    if e.is_active {
                        if e.particle_ticks_left == 0 {
                            let ghost wa = *w;
                            let e1 = spawn_particle(w, p);
                            let ghost wb = *w;
                            let e2 = spawn_particle(w, p);
                            let mut rec = r;
                            rec.emitter = Some(
                                ParticleEmitter {
                                    is_active: e.is_active,
                                    particle_cooldown: e.particle_cooldown,
                                    particle_ticks_left: e.particle_cooldown,
                                },
                            );
                            w.ents[i] = Some(rec);
                            proof {
                                assert(particle_positions(ents0, i as int + 1) =~= particle_positions(
                                    ents0,
                                    i as int,
                                ) + seq![p, p]);
                                assert forall|j: int|
                                    n <= j < w.ents@.len() implies w.live(j) && particle_shaped(
                                    #[trigger] w.rec(j),
                                ) && w.rec(j).pos == Some(
                                    particle_positions(ents0, i as int + 1)[j - n],
                                ) by {
                                    if j < wa.ents@.len() {
                                        assert(wa.live(j) && particle_shaped(wa.rec(j)));
                                        assert(wa.rec(j).pos == Some(
                                            particle_positions(ents0, i as int)[j - n],
                                        ));
                                        assert(w.ents@[j] == wa.ents@[j]);
                                    } else if j == wa.ents@.len() {
                                        assert(wb.live(j) && particle_shaped(wb.rec(j)));
                                        assert(wb.rec(j).pos == Some(p));
                                        assert(w.ents@[j] == wb.ents@[j]);
                                    } else {
                                        assert(j == wb.ents@.len());
                                        assert(w.rec(j).pos == Some(p));
                                    }
                                }
                            }
                        } else {
                            let ghost wpre = *w;
                            let mut rec = r;
                            rec.emitter = Some(
                                ParticleEmitter {
                                    is_active: e.is_active,
                                    particle_cooldown: e.particle_cooldown,
                                    particle_ticks_left: e.particle_ticks_left - 1,
                                },
                            );
                            w.ents[i] = Some(rec);
                            proof {
                                assert(particle_positions(ents0, i as int + 1) =~= particle_positions(
                                    ents0,
                                    i as int,
                                ));
                                assert forall|j: int|
                                    n <= j < w.ents@.len() implies w.live(j) && particle_shaped(
                                    #[trigger] w.rec(j),
                                ) && w.rec(j).pos == Some(
                                    particle_positions(ents0, i as int + 1)[j - n],
                                ) by {
                                    assert(w.ents@[j] == wpre.ents@[j]);
                                    assert(wpre.live(j) && particle_shaped(wpre.rec(j)));
                                    assert(wpre.rec(j).pos == Some(
                                        particle_positions(ents0, i as int)[j - n],
                                    ));
                                }
                            }
                        }
                    }
                }
            },
            None => {},
        }
        i = i + 1;
    }
}

/// Releases one particle at the emitter's position, with a velocity drawn
/// uniformly from up to a pixel per tick in each axis, doubled.
fn spawn_particle(w: &mut World, p: Pos) -> (e: Entity)
    requires
        world_wf(*old(w)),
        pos_wf(p),
    ensures
        world_wf(*final(w)),
        final(w).ents@.len() == old(w).ents@.len() + 1,
        e.id == old(w).ents@.len(),
        forall|i: int| 0 <= i < old(w).ents@.len() ==> final(w).ents@[i] == old(w).ents@[i],
        final(w).live(e.id as int),
        particle_shaped(final(w).rec(e.id as int)),
        final(w).rec(e.id as int).pos == Some(p),
        final(w).ctx == old(w).ctx,
{
    let vx = rand_in_range(-1000, 1000);
    let vy = rand_in_range(-1000, 1000);
    let mut v = Vec2::new(vx, vy);
    proof {
        crate::math::lemma_div_bound(v.x as int, 1000, 2000);
        crate::math::lemma_div_bound(v.y as int, 1000, 2000);
    }
    v.scale(2000);
    let mut rec = EntityRecord::empty();
    rec.pos = Some(p);
    rec.projectile = Some(Projectile { velocity: v, ticks_left: 60 });
    rec.light = Some(Light { radius: 2, color: Color { r: 255, g: 255, b: 255 }, intensity: 1000 });
    rec.colliders = Some(
        ColliderGroup {
            nav: Some(
                Collider::new(
                    (-2, -2, 4, 4),
                    CH_NONE,
                    CH_NAV | CH_HITBOX,
                    Some(CollisionResponse::HaltSelf),
                ),
            ),
            hitbox: None,
        },
    );
    w.spawn(rec)
}

} // verus!

verus! {

/// The position of the last entity that is a player, or the origin when no
/// player exists yet.
pub open spec fn last_player_pos(ents: Seq<Option<EntityRecord>>, n: int) -> Pos
    decreases n,
{
    if n <= 0 {
        Pos { x: 0, y: 0 }
    } else {
        match ents[n - 1] {
            Some(r) => if r.player is Some && r.pos is Some {
                r.pos->Some_0
            } else {
                last_player_pos(ents, n - 1)
            },
            None => last_player_pos(ents, n - 1),
        }
    }
}

/// The velocity an enemy takes toward the player: the offset normalized to
/// unit scale and scaled by the enemy speed; a coincident player leaves the
/// enemy still.
pub open spec fn chase_raw(from: Pos, to: Pos, speed: int) -> (int, int) {
    let dx = to.x - from.x;
    let dy = to.y - from.y;
    if dx * dx + dy * dy == 0 {
        (0, 0)
    } else {
        let m = crate::math::floor_sqrt((dx * dx + dy * dy) as nat) as int;
        (
            crate::math::div_trunc(crate::math::div_trunc(dx * 1000, m) * speed, 1000),
            crate::math::div_trunc(crate::math::div_trunc(dy * 1000, m) * speed, 1000),
        )
    }
}

/// Whether the enemy system applies to a record.
pub open spec fn enemy_applies(r: EntityRecord) -> bool {
    &&& r.enemy is Some
    &&& r.pos is Some
    &&& r.colliders is Some
    &&& r.sprite is Some
    &&& r.colliders->Some_0.nav is Some
}

/// A record after the enemy system: the sprite faces the player, movement
/// along a blocked side is cancelled, and the position advances by the
/// remaining chase velocity.
pub open spec fn enemy_rec_after(r: EntityRecord, pp: Pos, speed: int) -> EntityRecord {
    if enemy_applies(r) {
        let c = r.colliders->Some_0.nav->Some_0;
        let p = r.pos->Some_0;
        let v = chase_raw(p, pp, speed);
        let flip = if v.0 > 0 {
            true
        } else if v.0 < 0 {
            false
        } else {
            r.sprite->Some_0.flip_horizontal
        };
        let vx: int = if v.0 > 0 && c.right {
            0
        } else if v.0 < 0 && c.left {
            0
        } else {
            v.0
        };
        let vy: int = if v.1 > 0 && c.bottom {
            0
        } else if v.1 < 0 && c.top {
            0
        } else {
            v.1
        };
        EntityRecord {
            pos: Some(
                Pos {
                    x: crate::math::clamped_coord(p.x + vx) as i64,
                    y: crate::math::clamped_coord(p.y + vy) as i64,
                },
            ),
            sprite: Some(
                AnimatedSprite { flip_horizontal: flip, ..r.sprite->Some_0 },
            ),
            ..r
        }
    } else {
        r
    }
}

/// Enemy system: every enemy walks toward the last player's position at the
/// configured speed, stops against blocked sides, and faces its direction of
/// travel.
#[verifier::rlimit(60)]
pub fn update_enemies(w: &mut World)
    requires
        world_wf(*old(w)),
    ensures
        world_wf(*final(w)),
        final(w).ents@.len() == old(w).ents@.len(),
        forall|i: int|
            0 <= i < old(w).ents@.len() ==> final(w).ents@[i] == match old(w).ents@[i] {
                Some(r) => Some(
                    enemy_rec_after(
                        r,
                        last_player_pos(old(w).ents@, old(w).ents@.len() as int),
                        old(w).ctx.enemy_speed as int,
                    ),
                ),
                None => None,
            },
        final(w).ctx == old(w).ctx,
{
    let ghost ents0 = w.ents@;
    let n = w.ents.len();
    let mut pp = Pos::zero();
    let mut i: usize = 0;
    while i < n
        invariant
            world_wf(*w),
            *w == *old(w),
            ents0 == w.ents@,
            n == w.ents@.len(),
            i <= n,
            pp == last_player_pos(ents0, i as int),
            pos_wf(pp),
        decreases n - i,
    {
        match w.ents[i] {
            Some(r) => {
                if r.player.is_some() && r.pos.is_some() {
                    match r.pos {
                        Some(p) => {
                            pp = p;
                        },
                        None => {},
                    }
                }
            },
            None => {},
        }
        i = i + 1;
    }
    let ghost pp0 = pp;
    i = 0;
    while i < n
        invariant
            world_wf(*w),
            n == w.ents@.len() == ents0.len(),
            i <= n,
            pp == pp0,
            pp0 == last_player_pos(ents0, n as int),
            pos_wf(pp),
            0 <= w.ctx.enemy_speed <= 50_000,
            forall|j: int| i <= j < n ==> w.ents@[j] == ents0[j],
            forall|j: int|
                0 <= j < i ==> w.ents@[j] == match ents0[j] {
                    Some(r) => Some(enemy_rec_after(r, pp0, old(w).ctx.enemy_speed as int)),
                    None => None,
                },
            w.ctx == old(w).ctx,
        decreases n - i,
    {
        match w.ents[i] {
            Some(r) => {
                if r.enemy.is_some() && r.pos.is_some() && r.colliders.is_some()
                    && r.sprite.is_some() {
                    let g = match r.colliders {
                        Some(g) => g,
                        None => ColliderGroup { nav: None, hitbox: None },
                    };
                    match g.nav {
                        Some(c) => {
                            let p = match r.pos {
                                Some(p) => p,
                                None => Pos { x: 0, y: 0 },
                            };
                            let sp = match r.sprite {
                                Some(s) => s,
                                None => AnimatedSprite::new((0, 0, 0, 0), 0, AnimationId(0), None),
                            };
                            let mut v = Vec2::new(pp.x - p.x, pp.y - p.y);
                            let ghost v0 = v;
                            proof {
                                crate::math::lemma_norm_sq_bound(v);
                                if crate::math::norm_sq(v) != 0 {
                                    crate::math::lemma_normalized_bounds(v.x as int, v.y as int);
                                } else {
                                    assert(v.x == 0 && v.y == 0) by (nonlinear_arith)
                                        requires v.x * v.x + v.y * v.y == 0;
                                }
                            }
                            v.normalize();
                            let ghost v1 = v;
                            proof {
                                crate::math::lemma_mul_velocity_bound(
                                    v.x as int,
                                    w.ctx.enemy_speed as int,
                                );
                                crate::math::lemma_mul_velocity_bound(
                                    v.y as int,
                                    w.ctx.enemy_speed as int,
                                );
                            }
                            v.scale(w.ctx.enemy_speed);
                            let mut rec = r;
                            let flip = if v.x > 0 {
                                true
                            } else if v.x < 0 {
                                false
                            } else {
                                sp.flip_horizontal
                            };
                            let vx: i64 = if v.x > 0 && c.right {
                                0
                            } else if v.x < 0 && c.left {
                                0
                            } else {
                                v.x
                            };
                            let vy: i64 = if v.y > 0 && c.bottom {
                                0
                            } else if v.y < 0 && c.top {
                                0
                            } else {
                                v.y
                            };
                            rec.pos = Some(
                                Pos {
                                    x: crate::math::add_coord(p.x, vx),
                                    y: crate::math::add_coord(p.y, vy),
                                },
                            );
                            rec.sprite = Some(
                                AnimatedSprite { flip_horizontal: flip, ..sp },
                            );
                            proof {
                                let va = chase_raw(p, pp0, w.ctx.enemy_speed as int);
                                let speed = w.ctx.enemy_speed as int;
                                let dx = pp0.x - p.x;
                                let dy = pp0.y - p.y;
                                if dx * dx + dy * dy == 0 {
                                    assert(v1 == v0);
                                    assert(v.x == 0 && v.y == 0);
                                    assert(va == (0int, 0int));
                                } else {
                                    let m = crate::math::floor_sqrt((dx * dx + dy * dy) as nat)
                                        as int;
                                    assert(v1.x == crate::math::div_trunc(dx * 1000, m) && v1.y
                                        == crate::math::div_trunc(dy * 1000, m));
                                    assert((v.x as int) == crate::math::div_trunc(
                                        v1.x * speed,
                                        1000,
                                    ) && (v.y as int) == crate::math::div_trunc(
                                        v1.y * speed,
                                        1000,
                                    ));
                                }
                                assert((v.x as int) == va.0 && (v.y as int) == va.1);
                                assert(rec.pos == enemy_rec_after(
                                    r,
                                    pp0,
                                    w.ctx.enemy_speed as int,
                                ).pos);
                                assert(rec == enemy_rec_after(r, pp0, w.ctx.enemy_speed as int));
                            }
                            w.ents[i] = Some(rec);
                        },
                        None => {},
                    }
                }
            },
            None => {},
        }
        i = i + 1;
    }
}

} // verus!

verus! {

/// The index of the first entity the player system drives: one with player
/// state, a position, colliders and a sprite. Minus one when none exists.
pub open spec fn first_player_from(ents: Seq<Option<EntityRecord>>, k: int) -> int
    decreases ents.len() - k,
{
    if k < 0 || k >= ents.len() {
        -1
    } else {
        match ents[k] {
            Some(r) => if r.player is Some && r.pos is Some && r.colliders is Some && r.sprite
                is Some {
                k
            } else {
                first_player_from(ents, k + 1)
            },
            None => first_player_from(ents, k + 1),
        }
    }
}

/// The first-player search lands inside the arena or at minus one.
pub proof fn lemma_first_player_range(ents: Seq<Option<EntityRecord>>, k: int)
    requires
        0 <= k <= ents.len(),
    ensures
        first_player_from(ents, k) == -1 || k <= first_player_from(ents, k) < ents.len(),
        first_player_from(ents, k) >= 0 ==> ents[first_player_from(ents, k)] is Some
            && ents[first_player_from(ents, k)]->Some_0.player is Some
            && ents[first_player_from(ents, k)]->Some_0.pos is Some
            && ents[first_player_from(ents, k)]->Some_0.colliders is Some
            && ents[first_player_from(ents, k)]->Some_0.sprite is Some,
    decreases ents.len() - k,
{
    if k < ents.len() {
        lemma_first_player_range(ents, k + 1);
    }
}

/// The player's position after one tick of walking: each held direction
/// whose side is not blocked moves the player by `speed`, up, down, left,
/// right in that order, clamped to the coordinate range.
pub open spec fn walked_pos(p: Pos, inp: InputState, c: Collider, speed: int) -> Pos {
    let y1: int = if inp.up && !c.top {
        crate::math::clamped_coord(p.y - speed)
    } else {
        p.y as int
    };
    let y2: int = if inp.down && !c.bottom {
        crate::math::clamped_coord(y1 + speed)
    } else {
        y1
    };
    let x1: int = if inp.left && !c.left {
        crate::math::clamped_coord(p.x - speed)
    } else {
        p.x as int
    };
    let x2: int = if inp.right && !c.right {
        crate::math::clamped_coord(x1 + speed)
    } else {
        x1
    };
    Pos { x: x2 as i64, y: y2 as i64 }
}

/// The aim direction of the fire keys, one unit per axis.
pub open spec fn fire_traj(inp: InputState) -> (int, int) {
    (
        (if inp.fire_right {
            1int
        } else {
            0int
        }) - (if inp.fire_left {
            1int
        } else {
            0int
        }),
        (if inp.fire_down {
            1int
        } else {
            0int
        }) - (if inp.fire_up {
            1int
        } else {
            0int
        }),
    )
}

/// The cooldown counter after its per-tick decrement.
pub open spec fn cooled(pl: Player) -> Player {
    Player {
        can_fire_in: if pl.can_fire_in > 0 {
            (pl.can_fire_in - 1) as usize
        } else {
            0
        },
        ..pl
    }
}

/// Whether the player fires this tick: the cooldown has run out and a fire
/// key gives the shot a direction.
pub open spec fn player_fires(inp: InputState, pl: Player) -> bool {
    cooled(pl).can_fire_in == 0 && fire_traj(inp) != (0int, 0int)
}

/// The player state after the tick: cooled down, and rewound when a shot
/// went out.
pub open spec fn player_after_fire(inp: InputState, pl: Player) -> Player {
    if player_fires(inp, pl) {
        Player { can_fire_in: pl.fire_cooldown, ..pl }
    } else {
        cooled(pl)
    }
}

/// The velocity of a fired bullet: the raw aim direction (one unit per held
/// fire key and axis) scaled by the bullet speed, so diagonal shots carry
/// both components in full.
pub open spec fn bullet_velocity(inp: InputState, speed: int) -> Vec2 {
    let t = fire_traj(inp);
    Vec2 {
        x: crate::math::div_trunc(t.0 * 1000 * speed, 1000) as i64,
        y: crate::math::div_trunc(t.1 * 1000 * speed, 1000) as i64,
    }
}

/// What a fired bullet looks like, wherever its exact spawn point lands.
pub open spec fn bullet_shaped(r: EntityRecord, lifetime: usize, vel: Vec2) -> bool {
    &&& r.projectile is Some
    &&& r.projectile->Some_0.ticks_left == lifetime
    &&& r.projectile->Some_0.velocity == vel
    &&& r.pos is Some
    &&& r.colliders is Some
    &&& r.colliders->Some_0.nav is Some
    &&& r.colliders->Some_0.nav->Some_0.on_collide == Some(CollisionResponse::DespawnSelf)
    &&& r.player is None
    &&& r.emitter is None
    &&& r.is_static is None
}

/// Movement, aiming and firing for the first player entity: walking along
/// unblocked sides, the walk/idle animation switch, the cached player
/// position, the fire cooldown, and at most one bullet spawned per tick.
#[verifier::rlimit(100)]
fn player_walk(w: &mut World)
    requires
        world_wf(*old(w)),
    ensures
        world_wf(*final(w)),
        final(w).ctx.despawn_queue@ == old(w).ctx.despawn_queue@,
        final(w).ctx.player_inventory == old(w).ctx.player_inventory,
        final(w).ctx.input == old(w).ctx.input,
        ({
            let p = first_player_from(old(w).ents@, 0);
            if p < 0 {
                *final(w) == *old(w)
            } else {
                let r = old(w).ents@[p]->Some_0;
                let inp = old(w).ctx.input.pressed;
                let speed: int = if inp.shift {
                    8000
                } else {
                    old(w).ctx.player_speed as int
                };
                let newpos = match r.colliders->Some_0.nav {
                    Some(c) => walked_pos(r.pos->Some_0, inp, c, speed),
                    None => r.pos->Some_0,
                };
                let fired = player_fires(inp, r.player->Some_0);
                &&& final(w).ents@.len() == old(w).ents@.len() + (if fired {
                    1int
                } else {
                    0int
                })
                &&& final(w).ents@[p] is Some
                &&& final(w).ents@[p]->Some_0.pos == Some(newpos)
                &&& final(w).ents@[p]->Some_0.player == Some(
                    player_after_fire(inp, r.player->Some_0),
                )
                &&& final(w).ents@[p]->Some_0.player is Some
                &&& final(w).ents@[p]->Some_0.colliders == r.colliders
                &&& final(w).ents@[p]->Some_0.light == r.light
                &&& final(w).ents@[p]->Some_0.sprite is Some
                &&& final(w).ctx.player_pos == newpos
                &&& forall|i: int|
                    0 <= i < old(w).ents@.len() && i != p ==> final(w).ents@[i] == old(w).ents@[i]
                &&& (fired ==> final(w).ents@[old(w).ents@.len() as int] is Some
                    && bullet_shaped(
                    final(w).ents@[old(w).ents@.len() as int]->Some_0,
                    old(w).ctx.bullet_lifetime,
                    bullet_velocity(inp, old(w).ctx.bullet_speed as int),
                ))
            }
        }),
{
    let n = w.ents.len();
    let mut p: usize = 0;
    while p < n
        invariant
            world_wf(*w),
            *w == *old(w),
            n == w.ents@.len(),
            0 <= p <= n,
            first_player_from(w.ents@, 0) == first_player_from(w.ents@, p as int),
        ensures
            world_wf(*w),
            *w == *old(w),
            n == w.ents@.len(),
            0 <= p <= n,
            first_player_from(w.ents@, 0) == (if p < n {
                p as int
            } else {
                -1int
            }),
            p < n ==> (match w.ents@[p as int] {
                Some(r) => r.player is Some && r.pos is Some && r.colliders is Some && r.sprite
                    is Some,
                None => false,
            }),
        decreases n - p,
    {
        match w.ents[p] {
            Some(r) => {
                if r.player.is_some() && r.pos.is_some() && r.colliders.is_some()
                    && r.sprite.is_some() {
                    break;
                }
            },
            None => {},
        }
        p = p + 1;
    }
    if p >= n {
        return;
    }
    let r = match w.ents[p] {
        Some(r) => r,
        None => EntityRecord::empty(),
    };
    let pl = match r.player {
        Some(pl) => pl,
        None => Player { fire_cooldown: 0, can_fire_in: 0 },
    };
    let pos0 = match r.pos {
        Some(p) => p,
        None => Pos { x: 0, y: 0 },
    };
    let sp = match r.sprite {
        Some(s) => s,
        None => AnimatedSprite::new((0, 0, 0, 0), 0, AnimationId(0), None),
    };
    let g = match r.colliders {
        Some(g) => g,
        None => ColliderGroup { nav: None, hitbox: None },
    };
    let inp = w.ctx.input.pressed;

    // Animation: walking when any direction is held, idling otherwise.
    let mut sp2 = sp;
    if inp.up || inp.down || inp.left || inp.right {
        let walk = anim_or_sentinel(w, "player_walk");
        sp2.switch_anim(walk, 5);
    } else {
        let idle = anim_or_sentinel(w, "player_idle");
        sp2.switch_anim(idle, 30);
    }
    if inp.left {
        sp2.flip_horizontal = false;
    }
    if inp.right {
        sp2.flip_horizontal = true;
    }

    let speed: i64 = if inp.shift {
        8000
    } else {
        w.ctx.player_speed
    };

    let mut pos = pos0;
    match g.nav {
        Some(c) => {
            if inp.up && !c.top {
                pos.y = crate::math::add_coord(pos.y, -speed);
            }
            if inp.down && !c.bottom {
                pos.y = crate::math::add_coord(pos.y, speed);
            }
            if inp.left && !c.left {
                pos.x = crate::math::add_coord(pos.x, -speed);
            }
            if inp.right && !c.right {
                pos.x = crate::math::add_coord(pos.x, speed);
            }
        },
        None => {},
    }

    let pl1 = Player {
        fire_cooldown: pl.fire_cooldown,
        can_fire_in: if pl.can_fire_in > 0 {
            pl.can_fire_in - 1
        } else {
            0
        },
    };

    let tx: i64 = (if inp.fire_right {
        1i64
    } else {
        0i64
    }) - (if inp.fire_left {
        1i64
    } else {
        0i64
    });
    let ty: i64 = (if inp.fire_down {
        1i64
    } else {
        0i64
    }) - (if inp.fire_up {
        1i64
    } else {
        0i64
    });
    let fired = pl1.can_fire_in == 0 && (tx != 0 || ty != 0);

    let pl2 = if fired {
        Player { fire_cooldown: pl.fire_cooldown, can_fire_in: pl.fire_cooldown }
    } else {
        pl1
    };

    let mut rec = r;
    rec.pos = Some(pos);
    rec.player = Some(pl2);
    rec.sprite = Some(sp2);
    w.ents[p] = Some(rec);
    w.ctx.player_pos = pos;
    proof {
        let rold = old(w).ents@[p as int]->Some_0;
        let inp_s = old(w).ctx.input.pressed;
        let speed_s: int = if inp_s.shift {
            8000
        } else {
            old(w).ctx.player_speed as int
        };
        assert(pos == (match rold.colliders->Some_0.nav {
            Some(c) => walked_pos(rold.pos->Some_0, inp_s, c, speed_s),
            None => rold.pos->Some_0,
        }));
        assert(fired == player_fires(inp_s, rold.player->Some_0));
        assert(pl2 == player_after_fire(inp_s, rold.player->Some_0));
    }

    if fired {
        let raw = Vec2::new(tx * 1000, ty * 1000);
        let mut t = raw;
        proof {
            crate::math::lemma_norm_sq_bound(t);
            if crate::math::norm_sq(t) != 0 {
                crate::math::lemma_normalized_bounds(t.x as int, t.y as int);
            } else {
                assert(t.x == 0 && t.y == 0) by (nonlinear_arith)
                    requires t.x * t.x + t.y * t.y == 0;
            }
        }
        t.normalize();
        let muzzle = Vec2::new(
            crate::math::add_coord(pos.x, t.x * 30),
            crate::math::add_coord(pos.y, t.y * 30),
        );
        proof {
            assert(w.ctx.bullet_lifetime == old(w).ctx.bullet_lifetime);
            assert(w.ctx.bullet_speed == old(w).ctx.bullet_speed);
            assert(w.ents@.len() == n);
        }
        let b = spawn_bullet(w, muzzle, raw);
        proof {
            assert(b.id == n);
            let vel = bullet_velocity(old(w).ctx.input.pressed, old(w).ctx.bullet_speed as int);
            assert(w.ents@[n as int]->Some_0.projectile->Some_0.velocity == vel);
            assert(bullet_shaped(w.ents@[n as int]->Some_0, old(w).ctx.bullet_lifetime, vel));
        }
    }
}

} // verus!

verus! {

/// The active slot after the cycle-left / cycle-right keys.
pub open spec fn active_after_offsets(inv: Inventory, jp: InputState) -> int {
    let a0 = inv.active_item_idx as int;
    let a1: int = if jp.q {
        crate::inventory::settle_from(
            inv.items@,
            crate::inventory::start_slot(a0, -1),
            7,
            8,
        )
    } else {
        a0
    };
    if jp.e {
        crate::inventory::settle_from(inv.items@, crate::inventory::start_slot(a1, 1), 1, 8)
    } else {
        a1
    }
}

/// The slots after the use key, applied at the already-cycled active slot.
pub open spec fn items_after_use(items: Seq<Option<Item>>, a: int, used: bool) -> Seq<
    Option<Item>,
> {
    if used {
        match items[a] {
            Some(it) => items.update(
                a,
                if crate::inventory::item_use_cmd(it) is Remove {
                    None
                } else {
                    Some(crate::inventory::item_after_use(it))
                },
            ),
            None => items,
        }
    } else {
        items
    }
}

/// The world effects the use key requests.
pub open spec fn use_effects(items: Seq<Option<Item>>, a: int, used: bool) -> Seq<WorldEffect> {
    if used {
        match items[a] {
            Some(it) => match crate::inventory::item_use_effect(it) {
                Some(e) => seq![e],
                None => Seq::empty(),
            },
            None => Seq::empty(),
        }
    } else {
        Seq::empty()
    }
}

/// Every effect a well-formed item's use callback requests is well formed.
pub proof fn lemma_use_effect_wf(it: Item)
    ensures
        match crate::inventory::item_use_effect(it) {
            Some(e) => effect_wf(e),
            None => true,
        },
{
}

/// Every effect a well-formed item's per-tick callback requests is well
/// formed: in particular a torch's requested radius never exceeds 120.
pub proof fn lemma_tick_effect_wf(it: Item, is_active: bool)
    requires
        crate::inventory::item_wf(it),
    ensures
        match crate::inventory::item_tick_effect(it, is_active) {
            Some(e) => effect_wf(e),
            None => true,
        },
{
    match it {
        Item::Torch(t) => {
            if t.ticks_left > 0 {
                vstd::arithmetic::div_mod::lemma_div_is_ordered(
                    100 * t.ticks_left as int,
                    100 * t.ticks_max as int,
                    t.ticks_max as int,
                );
                vstd::arithmetic::div_mod::lemma_div_multiples_vanish(100, t.ticks_max as int);
            }
        },
        _ => {},
    }
}

/// Every effect ticking the first `n` slots of a well-formed slot sequence
/// requests is well formed.
pub proof fn lemma_tick_effects_wf(s: Seq<Option<Item>>, active: int, n: int)
    requires
        n <= s.len(),
        forall|i: int|
            0 <= i < s.len() ==> (#[trigger] s[i] is Some ==> crate::inventory::item_wf(
                s[i]->Some_0,
            )),
    ensures
        forall|k: int|
            0 <= k < crate::inventory::tick_effects_upto(s, active, n).len() ==> effect_wf(
                #[trigger] crate::inventory::tick_effects_upto(s, active, n)[k],
            ),
    decreases n,
{
    if n > 0 {
        lemma_tick_effects_wf(s, active, n - 1);
        match s[n - 1] {
            Some(it) => {
                lemma_tick_effect_wf(it, n - 1 == active);
            },
            None => {},
        }
        let whole = crate::inventory::tick_effects_upto(s, active, n);
        let pre = crate::inventory::tick_effects_upto(s, active, n - 1);
        assert forall|k: int| 0 <= k < whole.len() implies effect_wf(#[trigger] whole[k]) by {
            if k < pre.len() {
                assert(whole[k] == pre[k]);
            } else {
                assert(whole[k] == crate::inventory::slot_tick_effects(s[n - 1], n - 1 == active)[
                    k - pre.len()]);
            }
        }
    }
}

/// Inventory hotkeys for the tick: cycle the active slot left or right, use
/// the active item, then tick every item; the effects the items requested
/// are applied to the world in order.
fn player_items(w: &mut World)
    requires
        world_wf(*old(w)),
    ensures
        world_wf(*final(w)),
        final(w).ctx.despawn_queue@ == old(w).ctx.despawn_queue@,
        final(w).ctx.input == old(w).ctx.input,
        final(w).ctx.player_pos == old(w).ctx.player_pos,
        ({
            let inv0 = old(w).ctx.player_inventory;
            let jp = old(w).ctx.input.just_pressed;
            let a = active_after_offsets(inv0, jp);
            let items1 = items_after_use(inv0.items@, a, jp.use_item);
            let eff = use_effects(inv0.items@, a, jp.use_item) + crate::inventory::tick_effects_upto(
                items1,
                a,
                8,
            );
            &&& final(w).ctx.player_inventory.active_item_idx == a
            &&& final(w).ctx.player_inventory.items@.len() == 8
            &&& (forall|i: int|
                0 <= i < 8 ==> final(w).ctx.player_inventory.items@[i]
                    == crate::inventory::slot_after_tick(items1[i], i == a))
            &&& final(w).ents@.len() == old(w).ents@.len() + count_spawns(eff, eff.len() as int)
            &&& (forall|i: int|
                0 <= i < old(w).ents@.len() ==> final(w).ents@[i] == match old(w).ents@[i] {
                    Some(r) => {
                        if r.player is Some && r.light is Some {
                            Some(
                                EntityRecord {
                                    light: Some(
                                        light_after_effects(
                                            r.light->Some_0,
                                            eff,
                                            eff.len() as int,
                                        ),
                                    ),
                                    ..r
                                },
                            )
                        } else {
                            Some(r)
                        }
                    },
                    None => None,
                })
            &&& (forall|i: int|
                old(w).ents@.len() <= i < final(w).ents@.len() ==> final(w).live(i)
                    && chemlight_shaped(#[trigger] final(w).rec(i), old(w).ctx.player_pos)
                    && final(w).rec(i).light == Some(
                    spawned_lights(eff, eff.len() as int)[i - old(w).ents@.len()],
                ))
        }),
{
    let jp = w.ctx.input.just_pressed;
    if jp.q {
        w.ctx.player_inventory.set_active_offset(-1);
    }
    if jp.e {
        w.ctx.player_inventory.set_active_offset(1);
    }
    let mut effects: Vec<WorldEffect> = if jp.use_item {
        w.ctx.player_inventory.do_use()
    } else {
        Vec::new()
    };
    let mut teff = w.ctx.player_inventory.tick();
    effects.append(&mut teff);
    proof {
        let inv0 = old(w).ctx.player_inventory;
        let a = active_after_offsets(inv0, jp);
        let items1 = items_after_use(inv0.items@, a, jp.use_item);
        let eff = use_effects(inv0.items@, a, jp.use_item) + crate::inventory::tick_effects_upto(
            items1,
            a,
            8,
        );
        assert(effects@ =~= eff);
        match inv0.items@[a] {
            Some(it) => {
                lemma_use_effect_wf(it);
            },
            None => {},
        }
        lemma_tick_effects_wf(items1, a, 8);
        assert forall|k: int| 0 <= k < effects@.len() implies effect_wf(#[trigger] effects@[k]) by {
            if k < use_effects(inv0.items@, a, jp.use_item).len() {
            } else {
                assert(eff[k] == crate::inventory::tick_effects_upto(items1, a, 8)[k - use_effects(
                    inv0.items@,
                    a,
                    jp.use_item,
                ).len()]);
            }
        }
    }
    apply_effects(w, &effects);
}

} // verus!

verus! {

/// Interaction for the tick: when the interact key was just pressed, every
/// interactable within 32 pixels of the cached player position runs its
/// action. The one action the game wires up flips the interactable's own
/// sprite and toggles the particle emitter the world points at, switching
/// its light between the action's radius and darkness. No action moves an
/// entity or touches the resources.
fn player_interact(w: &mut World)
    requires
        world_wf(*old(w)),
    ensures
        world_wf(*final(w)),
        final(w).ents@.len() == old(w).ents@.len(),
        final(w).ctx == old(w).ctx,
        !old(w).ctx.input.just_pressed.interact ==> final(w).ents@ == old(w).ents@,
        forall|i: int|
            0 <= i < old(w).ents@.len() ==> (final(w).ents@[i] is Some <==> old(w).ents@[i]
                is Some),
        forall|i: int|
            0 <= i < old(w).ents@.len() && old(w).ents@[i] is Some
                ==> final(w).ents@[i]->Some_0.pos == old(w).ents@[i]->Some_0.pos
                && final(w).ents@[i]->Some_0.player == old(w).ents@[i]->Some_0.player
                && final(w).ents@[i]->Some_0.projectile == old(w).ents@[i]->Some_0.projectile
                && final(w).ents@[i]->Some_0.colliders == old(w).ents@[i]->Some_0.colliders
                && final(w).ents@[i]->Some_0.is_static == old(w).ents@[i]->Some_0.is_static
                && (old(w).ents@[i]->Some_0.emitter is None
                    ==> final(w).ents@[i]->Some_0.emitter is None),
        forall|i: int|
            0 <= i < old(w).ents@.len() && old(w).ents@[i] is Some && old(
                w,
            ).ents@[i]->Some_0.interactable is None && old(w).ctx.particle_emitter_entity != Some(
                Entity { id: i as usize },
            ) ==> final(w).ents@[i] == old(w).ents@[i],
{
    if !w.ctx.input.just_pressed.interact {
        return;
    }
    let n = w.ents.len();
    let mut i: usize = 0;
    while i < n
        invariant
            world_wf(*w),
            n == w.ents@.len() == old(w).ents@.len(),
            i <= n,
            w.ctx == old(w).ctx,
            forall|j: int|
                0 <= j < n ==> (w.ents@[j] is Some <==> old(w).ents@[j] is Some),
            forall|j: int|
                0 <= j < n && old(w).ents@[j] is Some ==> w.ents@[j]->Some_0.pos == old(
                    w,
                ).ents@[j]->Some_0.pos && w.ents@[j]->Some_0.player == old(
                    w,
                ).ents@[j]->Some_0.player && w.ents@[j]->Some_0.projectile == old(
                    w,
                ).ents@[j]->Some_0.projectile && w.ents@[j]->Some_0.colliders == old(
                    w,
                ).ents@[j]->Some_0.colliders && w.ents@[j]->Some_0.is_static == old(
                    w,
                ).ents@[j]->Some_0.is_static && (old(w).ents@[j]->Some_0.emitter is None
                    ==> w.ents@[j]->Some_0.emitter is None),
            forall|j: int|
                0 <= j < n && old(w).ents@[j] is Some && old(w).ents@[j]->Some_0.interactable
                    is None && old(w).ctx.particle_emitter_entity != Some(
                    Entity { id: j as usize },
                ) ==> w.ents@[j] == old(w).ents@[j],
        decreases n - i,
    {
        match w.ents[i] {
            Some(r) => {
                if r.interactable.is_some() && r.pos.is_some() {
                    let p = match r.pos {
                        Some(p) => p,
                        None => Pos { x: 0, y: 0 },
                    };
                    let action = match r.interactable {
                        Some(a) => a.on_interact,
                        None => InteractAction::ToggleEmitter { lit_radius: 0 },
                    };
                    let d = w.ctx.player_pos.distance(&p);
                    if d < 32_000 {
                        // The interactable's own sprite flips.
                        let mut rec = r;
                        match rec.sprite {
                            Some(sp) => {
                                rec.sprite = Some(
                                    AnimatedSprite {
                                        flip_horizontal: !sp.flip_horizontal,
                                        ..sp
                                    },
                                );
                            },
                            None => {},
                        }
                        w.ents[i] = Some(rec);
                        match action {
                            InteractAction::ToggleEmitter { lit_radius } => {
                                toggle_emitter(w, lit_radius);
                            },
                        }
                    }
                }
            },
            None => {},
        }
        i = i + 1;
    }
}

/// Toggles the particle emitter the world points at: its activity flips and
/// its light follows, `lit_radius` when active, dark when not.
fn toggle_emitter(w: &mut World, lit_radius: u16)
    requires
        world_wf(*old(w)),
        lit_radius <= 2000,
    ensures
        world_wf(*final(w)),
        final(w).ents@.len() == old(w).ents@.len(),
        final(w).ctx == old(w).ctx,
        forall|i: int|
            0 <= i < old(w).ents@.len() ==> (final(w).ents@[i] is Some <==> old(w).ents@[i]
                is Some),
        forall|i: int|
            0 <= i < old(w).ents@.len() && old(w).ents@[i] is Some
                ==> final(w).ents@[i]->Some_0.pos == old(w).ents@[i]->Some_0.pos
                && final(w).ents@[i]->Some_0.player == old(w).ents@[i]->Some_0.player
                && final(w).ents@[i]->Some_0.projectile == old(w).ents@[i]->Some_0.projectile
                && final(w).ents@[i]->Some_0.colliders == old(w).ents@[i]->Some_0.colliders
                && final(w).ents@[i]->Some_0.is_static == old(w).ents@[i]->Some_0.is_static
                && (old(w).ents@[i]->Some_0.emitter is None
                    ==> final(w).ents@[i]->Some_0.emitter is None),
        forall|i: int|
            0 <= i < old(w).ents@.len() && old(w).ctx.particle_emitter_entity != Some(
                Entity { id: i as usize },
            ) ==> final(w).ents@[i] == old(w).ents@[i],
{
    let te = match w.ctx.particle_emitter_entity {
        Some(te) => te,
        None => {
            return ;
        },
    };
    if te.id >= w.ents.len() {
        return ;
    }
    match w.ents[te.id] {
        Some(r2) => {
            let mut rec = r2;
            let mut now_active = false;
            match rec.emitter {
                Some(e) => {
                    now_active = !e.is_active;
                    rec.emitter = Some(ParticleEmitter { is_active: now_active, ..e });
                },
                None => {},
            }
            match rec.light {
                Some(l) => {
                    rec.light = Some(
                        Light {
                            radius: if now_active {
                                lit_radius
                            } else {
                                0
                            },
                            ..l
                        },
                    );
                },
                None => {},
            }
            w.ents[te.id] = Some(rec);
        },
        None => {},
    }
}

/// Player system: movement, aiming and firing for the player entity, then
/// the inventory hotkeys and item effects, then interaction. The player's
/// new position is exactly the walk along unblocked sides and is cached for
/// the camera and for distance tests.
pub fn update_player(w: &mut World)
    requires
        world_wf(*old(w)),
    ensures
        world_wf(*final(w)),
        final(w).ents@.len() >= old(w).ents@.len(),
        final(w).ctx.despawn_queue@ == old(w).ctx.despawn_queue@,
        ({
            let inv0 = old(w).ctx.player_inventory;
            let jp = old(w).ctx.input.just_pressed;
            let a = active_after_offsets(inv0, jp);
            let items1 = items_after_use(inv0.items@, a, jp.use_item);
            &&& final(w).ctx.player_inventory.active_item_idx == a
            &&& final(w).ctx.player_inventory.items@.len() == 8
            &&& (forall|i: int|
                0 <= i < 8 ==> final(w).ctx.player_inventory.items@[i]
                    == crate::inventory::slot_after_tick(items1[i], i == a))
        }),
        ({
            let p = first_player_from(old(w).ents@, 0);
            p >= 0 ==> {
                let r = old(w).ents@[p]->Some_0;
                let inp = old(w).ctx.input.pressed;
                let speed: int = if inp.shift {
                    8000
                } else {
                    old(w).ctx.player_speed as int
                };
                let newpos = match r.colliders->Some_0.nav {
                    Some(c) => walked_pos(r.pos->Some_0, inp, c, speed),
                    None => r.pos->Some_0,
                };
                &&& final(w).ents@[p]->Some_0.pos == Some(newpos)
                &&& final(w).ctx.player_pos == newpos
                &&& final(w).ents@[p]->Some_0.player == Some(
                    player_after_fire(inp, r.player->Some_0),
                )
                &&& (player_fires(inp, r.player->Some_0)
                    ==> old(w).ents@.len() < final(w).ents@.len() && final(w).ents@[old(
                    w,
                ).ents@.len() as int] is Some && bullet_shaped(
                    final(w).ents@[old(w).ents@.len() as int]->Some_0,
                    old(w).ctx.bullet_lifetime,
                    bullet_velocity(inp, old(w).ctx.bullet_speed as int),
                ))
            }
        }),
{
    let ghost w0 = *w;
    player_walk(w);
    let ghost w1 = *w;
    player_items(w);
    let ghost w2 = *w;
    player_interact(w);
    proof {
        let inv0 = w1.ctx.player_inventory;
        let jp = w1.ctx.input.just_pressed;
        let a = active_after_offsets(inv0, jp);
        let items1 = items_after_use(inv0.items@, a, jp.use_item);
        let eff = use_effects(inv0.items@, a, jp.use_item) + crate::inventory::tick_effects_upto(
            items1,
            a,
            8,
        );
        lemma_count_spawns_bounds(eff, eff.len() as int);
        assert(w1.ctx.player_inventory == w0.ctx.player_inventory);
        assert(w1.ctx.input == w0.ctx.input);
        assert(w.ctx.player_inventory == w2.ctx.player_inventory);
        let p = first_player_from(w0.ents@, 0);
        lemma_first_player_range(w0.ents@, 0);
        if p >= 0 {
            assert(w1.ents@[p] is Some);
            assert(w2.ents@[p] == (match w1.ents@[p] {
                Some(r) => {
                    if r.player is Some && r.light is Some {
                        Some(
                            EntityRecord {
                                light: Some(
                                    light_after_effects(r.light->Some_0, eff, eff.len() as int),
                                ),
                                ..r
                            },
                        )
                    } else {
                        Some(r)
                    }
                },
                None => None,
            }));
            assert(w2.ents@[p]->Some_0.pos == w1.ents@[p]->Some_0.pos);
            assert(w.ents@[p]->Some_0.pos == w2.ents@[p]->Some_0.pos);
            assert(w2.ents@[p]->Some_0.player == w1.ents@[p]->Some_0.player);
            assert(w.ents@[p]->Some_0.player == w2.ents@[p]->Some_0.player);
            let r0 = w0.ents@[p]->Some_0;
            if player_fires(w0.ctx.input.pressed, r0.player->Some_0) {
                let n0 = w0.ents@.len() as int;
                let blife = w0.ctx.bullet_lifetime;
                let bvel = bullet_velocity(w0.ctx.input.pressed, w0.ctx.bullet_speed as int);
                assert(w1.ents@[n0] is Some);
                assert(bullet_shaped(w1.ents@[n0]->Some_0, blife, bvel));
                assert(n0 < w1.ents@.len());
                assert(w2.ents@[n0] == (match w1.ents@[n0] {
                    Some(r) => {
                        if r.player is Some && r.light is Some {
                            Some(
                                EntityRecord {
                                    light: Some(
                                        light_after_effects(
                                            r.light->Some_0,
                                            eff,
                                            eff.len() as int,
                                        ),
                                    ),
                                    ..r
                                },
                            )
                        } else {
                            Some(r)
                        }
                    },
                    None => None,
                }));
                assert(w2.ents@[n0] == w1.ents@[n0]);
                assert(w.ents@[n0] is Some);
                assert(bullet_shaped(w.ents@[n0]->Some_0, blife, bvel));
            }
        }
    }
}

/// One simulation tick: spawners, the player, enemies, projectiles, the
/// collider fix phase, collision detection and resolution, and finally the
/// despawn-queue flush. Everything enqueued for despawn during the tick is
/// gone afterward and the queue is left empty.
pub fn update(w: &mut World)
    requires
        world_wf(*old(w)),
    ensures
        world_wf(*final(w)),
        final(w).ctx.despawn_queue@.len() == 0,
        final(w).ents@.len() >= old(w).ents@.len(),
        exists|w1: World, w2: World, w3: World, w4: World, w5: World, w6: World|
            #[trigger] tick_rel(*old(w), w1, w2, w3, w4, w5, w6, *final(w)),
{
    let ghost w0 = *w;
    update_spawners(w);
    let ghost g1 = *w;
    proof {
        lemma_count_firing_nonneg(w0.ents@, w0.ents@.len() as int);
    }
    update_player(w);
    let ghost g2 = *w;
    update_enemies(w);
    let ghost g3 = *w;
    update_projectiles(w);
    let ghost g4 = *w;
    crate::collision::fix_colliders(w);
    let ghost g5 = *w;
    crate::collision::detect_collisions(w);
    let ghost g6 = *w;
    w.flush_despawn_queue();
    proof {
        assert(spawners_rel(w0, g1));
        assert(player_rel(g1, g2));
        assert(enemies_rel(g2, g3));
        assert(projectiles_rel(g3, g4));
        assert(fix_rel(g4, g5));
        assert(detect_rel(g5, g6));
        assert(flush_rel(g6, *w));
        assert(tick_rel(w0, g1, g2, g3, g4, g5, g6, *w));
    }
}

} // verus!

verus! {

/// The spawner phase as a relation between the worlds before and after it:
/// exactly what `update_spawners` ensures.
pub open spec fn spawners_rel(a: World, b: World) -> bool {
    &&& world_wf(b)
    &&& b.ents@.len() == a.ents@.len() + 2 * count_firing(a.ents@, a.ents@.len() as int)
    &&& (forall|i: int|
        0 <= i < a.ents@.len() ==> b.ents@[i] == match a.ents@[i] {
            Some(r) => Some(emitter_rec_after(r)),
            None => None,
        })
    &&& (forall|i: int|
        a.ents@.len() <= i < b.ents@.len() ==> b.live(i) && particle_shaped(#[trigger] b.rec(i))
            && b.rec(i).pos == Some(
            particle_positions(a.ents@, a.ents@.len() as int)[i - a.ents@.len()],
        ))
    &&& b.ctx == a.ctx
}

/// The player phase as a relation: exactly what `update_player` ensures.
pub open spec fn player_rel(a: World, b: World) -> bool {
    &&& world_wf(b)
    &&& b.ents@.len() >= a.ents@.len()
    &&& b.ctx.despawn_queue@ == a.ctx.despawn_queue@
    &&& ({
        let inv0 = a.ctx.player_inventory;
        let jp = a.ctx.input.just_pressed;
        let aa = active_after_offsets(inv0, jp);
        let items1 = items_after_use(inv0.items@, aa, jp.use_item);
        &&& b.ctx.player_inventory.active_item_idx == aa
        &&& b.ctx.player_inventory.items@.len() == 8
        &&& (forall|i: int|
            0 <= i < 8 ==> b.ctx.player_inventory.items@[i] == crate::inventory::slot_after_tick(
                items1[i],
                i == aa,
            ))
    })
    &&& ({
        let p = first_player_from(a.ents@, 0);
        p >= 0 ==> {
            let r = a.ents@[p]->Some_0;
            let inp = a.ctx.input.pressed;
            let speed: int = if inp.shift {
                8000
            } else {
                a.ctx.player_speed as int
            };
            let newpos = match r.colliders->Some_0.nav {
                Some(c) => walked_pos(r.pos->Some_0, inp, c, speed),
                None => r.pos->Some_0,
            };
            &&& b.ents@[p]->Some_0.pos == Some(newpos)
            &&& b.ctx.player_pos == newpos
            &&& b.ents@[p]->Some_0.player == Some(player_after_fire(inp, r.player->Some_0))
            &&& (player_fires(inp, r.player->Some_0) ==> a.ents@.len() < b.ents@.len()
                && b.ents@[a.ents@.len() as int] is Some && bullet_shaped(
                b.ents@[a.ents@.len() as int]->Some_0,
                a.ctx.bullet_lifetime,
                bullet_velocity(inp, a.ctx.bullet_speed as int),
            ))
        }
    })
}

/// The enemy phase as a relation: exactly what `update_enemies` ensures.
pub open spec fn enemies_rel(a: World, b: World) -> bool {
    &&& world_wf(b)
    &&& b.ents@.len() == a.ents@.len()
    &&& (forall|i: int|
        0 <= i < a.ents@.len() ==> b.ents@[i] == match a.ents@[i] {
            Some(r) => Some(
                enemy_rec_after(
                    r,
                    last_player_pos(a.ents@, a.ents@.len() as int),
                    a.ctx.enemy_speed as int,
                ),
            ),
            None => None,
        })
    &&& b.ctx == a.ctx
}

/// The projectile phase as a relation: exactly what `update_projectiles`
/// ensures.
pub open spec fn projectiles_rel(a: World, b: World) -> bool {
    &&& world_wf(b)
    &&& b.ents@.len() == a.ents@.len()
    &&& (forall|i: int|
        0 <= i < a.ents@.len() ==> b.ents@[i] == match a.ents@[i] {
            Some(r) => Some(proj_rec_after(r)),
            None => None,
        })
    &&& b.ctx.despawn_queue@ == a.ctx.despawn_queue@ + proj_pushes_upto(
        a.ents@,
        a.ents@.len() as int,
    )
    &&& crate::world::ctx_fields_eq_but_queue(b.ctx, a.ctx)
}

/// The collider fix phase as a relation: exactly what `fix_colliders`
/// ensures.
pub open spec fn fix_rel(a: World, b: World) -> bool {
    &&& world_wf(b)
    &&& b.ents@.len() == a.ents@.len()
    &&& (forall|i: int|
        0 <= i < a.ents@.len() ==> b.ents@[i] == match a.ents@[i] {
            Some(r) => Some(crate::collision::rec_after_fix(r)),
            None => None,
        })
    &&& b.ctx == a.ctx
}

/// The detect/resolve phase as a relation: exactly what `detect_collisions`
/// ensures.
pub open spec fn detect_rel(a: World, b: World) -> bool {
    &&& world_wf(b)
    &&& b.ents@.len() == a.ents@.len()
    &&& (forall|i: int|
        0 <= i < a.ents@.len() ==> b.ents@[i] == match a.ents@[i] {
            Some(_) => Some(crate::collision::rec_after_detect(a.ents@, i)),
            None => None,
        })
    &&& b.ctx.despawn_queue@ == a.ctx.despawn_queue@ + crate::collision::all_pushes(
        a.ents@,
        a.ents@.len() as int,
    )
    &&& crate::world::ctx_fields_eq_but_queue(b.ctx, a.ctx)
}

/// The end-of-tick flush as a relation: exactly what `flush_despawn_queue`
/// ensures — every queued entity removed, every other kept, the queue
/// emptied.
pub open spec fn flush_rel(a: World, b: World) -> bool {
    &&& world_wf(b)
    &&& b.ents@ == crate::world::flushed(a.ents@, a.ctx.despawn_queue@)
    &&& b.ents@.len() == a.ents@.len()
    &&& b.ctx.despawn_queue@.len() == 0
    &&& crate::world::ctx_fields_eq_but_queue(b.ctx, a.ctx)
    &&& (forall|k: int|
        0 <= k < a.ctx.despawn_queue@.len() ==> !b.live(
            (#[trigger] a.ctx.despawn_queue@[k]).id as int,
        ))
    &&& (forall|i: int|
        0 <= i < a.ents@.len() && (forall|k: int|
            0 <= k < a.ctx.despawn_queue@.len() ==> (#[trigger] a.ctx.despawn_queue@[k]).id != i)
            ==> b.ents@[i] == a.ents@[i])
}

/// One full tick as a relation: the six phases in their fixed order —
/// spawners, player, enemies, projectiles, collider fix, detect/resolve —
/// then the despawn-queue flush. Entities enqueued for despawn during the
/// tick stay in storage through every later phase (no phase but the flush
/// removes anything) and are gone exactly at the flush.
pub open spec fn tick_rel(
    a: World,
    w1: World,
    w2: World,
    w3: World,
    w4: World,
    w5: World,
    w6: World,
    b: World,
) -> bool {
    &&& spawners_rel(a, w1)
    &&& player_rel(w1, w2)
    &&& enemies_rel(w2, w3)
    &&& projectiles_rel(w3, w4)
    &&& fix_rel(w4, w5)
    &&& detect_rel(w5, w6)
    &&& flush_rel(w6, b)
}

} // verus!
