//! Component records attached to entities: position, animated sprite,
//! colliders, lights, and the per-kind state of players, enemies, projectiles
//! and interactables.
//!
//! Two component fields of the original design were closures; both are closed
//! variant types here, consumed by dedicated systems, so their effect is part
//! of the verified contracts: a collider's `on_collide` is a
//! [`CollisionResponse`] and an interactable's `on_interact` is an
//! [`InteractAction`].

use vstd::prelude::*;

use crate::geom::{Color, Rect};
use crate::math::{round_to_px, round_px, floor_sqrt, norm_sq, vec2_bounded, Vec2, COORD_LIMIT};

verus! {

/// The empty collision channel mask.
pub const CH_NONE: usize = 0;

/// Channel of solid, movement-blocking colliders.
pub const CH_NAV: usize = 1;

/// Channel of overlap-sensing colliders that never block movement.
pub const CH_HITBOX: usize = 1 << 1;

/// A world position in fixed-point subunits. Position is ground truth:
/// collider bounds are re-derived from it every tick.
#[derive(Clone, Copy, PartialEq, Eq, Structural, Debug)]
pub struct Pos {
    pub x: i64,
    pub y: i64,
}

/// Positions the simulation keeps within the coordinate limit.
pub open spec fn pos_wf(p: Pos) -> bool {
    -COORD_LIMIT <= p.x <= COORD_LIMIT && -COORD_LIMIT <= p.y <= COORD_LIMIT
}

impl Pos {
    pub fn new(x: i64, y: i64) -> (p: Pos)
        ensures
            p == (Pos { x, y }),
    {
        Pos { x, y }
    }

    pub fn zero() -> (p: Pos)
        ensures
            p == (Pos { x: 0, y: 0 }),
    {
        Pos { x: 0, y: 0 }
    }

    /// Euclidean distance in subunits, rounded down.
    pub fn distance(&self, other: &Pos) -> (d: u64)
        requires
            pos_wf(*self),
            pos_wf(*other),
        ensures
            d == floor_sqrt(
                ((self.x - other.x) * (self.x - other.x) + (self.y - other.y) * (self.y
                    - other.y)) as nat,
            ),
    {
        let v = Vec2 { x: self.x - other.x, y: self.y - other.y };
        v.magnitude()
    }
}

/// A handle into the animation repository.
#[derive(Clone, Copy, PartialEq, Eq, Structural, Debug)]
pub struct AnimationId(pub usize);

/// A handle to a loaded texture; the platform layer owns the pixels.
#[derive(Clone, Copy, PartialEq, Eq, Structural, Debug)]
pub struct TextureId(pub usize);

/// A rectangle of the spritesheet, in tile units: column, row, width, height.
#[derive(Clone, Copy, PartialEq, Eq, Structural, Debug)]
pub struct Sprite(pub u16, pub u16, pub u16, pub u16);

impl Sprite {
    pub fn new(col: u16, row: u16, w: u16, h: u16) -> (s: Sprite)
        ensures
            s == Sprite(col, row, w, h),
    {
        Sprite(col, row, w, h)
    }
}

/// A sprite animated by stepping through the frames of a named animation.
#[derive(Clone, Copy, PartialEq, Eq, Structural, Debug)]
pub struct AnimatedSprite {
    pub anim: AnimationId,
    pub frame: u32,
    pub width: u32,
    pub height: u32,
    pub ticks: u32,
    pub ticks_per_frame: u32,
    pub flip_horizontal: bool,
    pub x_offset: i16,
    pub y_offset: i16,
    pub z_offset: Option<i16>,
}

impl AnimatedSprite {
    pub fn new(rect: (i16, i16, u32, u32), ticks_per_frame: u32, anim: AnimationId, z_offset: Option<
        i16,
    >) -> (s: AnimatedSprite)
        ensures
            s == (AnimatedSprite {
                anim,
                frame: 0,
                width: rect.2,
                height: rect.3,
                ticks: 0,
                ticks_per_frame,
                flip_horizontal: false,
                x_offset: rect.0,
                y_offset: rect.1,
                z_offset,
            }),
    {
        AnimatedSprite {
            x_offset: rect.0,
            y_offset: rect.1,
            anim,
            frame: 0,
            width: rect.2,
            height: rect.3,
            ticks: 0,
            ticks_per_frame,
            flip_horizontal: false,
            z_offset,
        }
    }

    pub fn anim(&self) -> (a: AnimationId)
        ensures
            a == self.anim,
    {
        self.anim
    }

    /// Switches to another animation, restarting the frame clock; switching
    /// to the animation already playing changes nothing.
    pub fn switch_anim(&mut self, anim: AnimationId, ticks_per_frame: u32)
        ensures
            old(self).anim == anim ==> *final(self) == *old(self),
            old(self).anim != anim ==> *final(self) == (AnimatedSprite {
                anim,
                frame: 0,
                ticks: 0,
                ticks_per_frame,
                ..*old(self)
            }),
    {
        if !(self.anim == anim) {
            self.anim = anim;
            self.frame = 0;
            self.ticks = 0;
            self.ticks_per_frame = ticks_per_frame;
        }
    }
}

/// What a collider does to its owner when an overlap is detected. The
/// original design stored a callback; the closed set of behaviors it chose
/// from is spelled out here and executed by the collision system.
#[derive(Clone, Copy, PartialEq, Eq, Structural, Debug)]
pub enum CollisionResponse {
    /// Enqueue the owner for despawn on any contact (a bullet expires).
    DespawnSelf,
    /// Enqueue the owner for despawn when the other entity is a projectile
    /// (an enemy struck by a bullet).
    DespawnSelfOnProjectile,
    /// Zero the owner's projectile velocity (a particle comes to rest).
    HaltSelf,
}

/// One axis-aligned collision box: channel masks, a local offset from the
/// owner's position, world bounds recomputed each tick, and the per-tick
/// detection flags.
#[derive(Clone, Copy, PartialEq, Eq, Structural, Debug)]
pub struct Collider {
    pub channels: usize,
    pub collides_with: usize,
    pub x_offset: i32,
    pub y_offset: i32,
    pub bounds: Rect,
    pub is_colliding: bool,
    pub left: bool,
    pub right: bool,
    pub top: bool,
    pub bottom: bool,
    pub on_collide: Option<CollisionResponse>,
}

/// Collider offsets and extents small enough that recomputed world bounds
/// stay well-formed.
pub open spec fn collider_wf(c: Collider) -> bool {
    &&& -32768 <= c.x_offset <= 32767
    &&& -32768 <= c.y_offset <= 32767
    &&& 0 < c.bounds.w <= 4096
    &&& 0 < c.bounds.h <= 4096
    &&& -0x1000_0000 <= c.bounds.x <= 0x1000_0000
    &&& -0x1000_0000 <= c.bounds.y <= 0x1000_0000
}

impl Collider {
    pub fn new(
        rect: (i32, i32, u32, u32),
        channels: usize,
        collides_with: usize,
        on_collide: Option<CollisionResponse>,
    ) -> (c: Collider)
        ensures
            c == (Collider {
                channels,
                collides_with,
                x_offset: rect.0,
                y_offset: rect.1,
                bounds: Rect { x: 0, y: 0, w: rect.2, h: rect.3 },
                is_colliding: false,
                left: false,
                right: false,
                top: false,
                bottom: false,
                on_collide,
            }),
    {
        Collider {
            channels,
            collides_with,
            x_offset: rect.0,
            y_offset: rect.1,
            bounds: Rect { x: 0, y: 0, w: rect.2, h: rect.3 },
            is_colliding: false,
            left: false,
            right: false,
            top: false,
            bottom: false,
            on_collide,
        }
    }

    /// Moves the world bounds to the given pixel origin; extents are fixed.
    pub fn set_pos(&mut self, x: i32, y: i32)
        ensures
            *final(self) == (Collider {
                bounds: Rect { x, y, ..old(self).bounds },
                ..*old(self)
            }),
    {
        self.bounds.x = x;
        self.bounds.y = y;
    }
}

/// The world bounds a collider takes in the fix phase: the owner's position
/// rounded to pixels, plus the collider's local offset.
pub open spec fn fixed_bounds(c: Collider, p: Pos) -> Rect {
    Rect {
        x: (round_to_px(p.x as int) + c.x_offset) as i32,
        y: (round_to_px(p.y as int) + c.y_offset) as i32,
        ..c.bounds
    }
}

/// Recomputes a collider's world bounds from its owner's position.
pub fn fix_collider(c: &mut Collider, p: Pos)
    requires
        pos_wf(p),
        collider_wf(*old(c)),
    ensures
        *final(c) == (Collider { bounds: fixed_bounds(*old(c), p), ..*old(c) }),
        collider_wf(*final(c)),
{
    let px: i64 = round_px(p.x);
    let py: i64 = round_px(p.y);
    c.set_pos((px as i32) + c.x_offset, (py as i32) + c.y_offset);
}

/// An entity's colliders: at most one solid navigation box and one sensing
/// hitbox, evaluated independently.
#[derive(Clone, Copy, PartialEq, Eq, Structural, Debug)]
pub struct ColliderGroup {
    pub nav: Option<Collider>,
    pub hitbox: Option<Collider>,
}

/// Every collider present in a group is well-formed.
pub open spec fn collider_group_wf(g: ColliderGroup) -> bool {
    &&& (g.nav is Some ==> collider_wf(g.nav->Some_0))
    &&& (g.hitbox is Some ==> collider_wf(g.hitbox->Some_0))
}

/// Player state: the fire cooldown in ticks and how long until the next shot.
#[derive(Clone, Copy, PartialEq, Eq, Structural, Debug)]
pub struct Player {
    pub fire_cooldown: usize,
    pub can_fire_in: usize,
}

/// Marker for enemies.
#[derive(Clone, Copy, PartialEq, Eq, Structural, Debug)]
pub struct Enemy {}

/// A moving projectile: velocity in subunits per tick and remaining lifetime.
#[derive(Clone, Copy, PartialEq, Eq, Structural, Debug)]
pub struct Projectile {
    pub velocity: Vec2,
    pub ticks_left: usize,
}

/// A point light: radius in pixels, tint, and intensity in thousandths.
#[derive(Clone, Copy, PartialEq, Eq, Structural, Debug)]
pub struct Light {
    pub radius: u16,
    pub color: Color,
    pub intensity: u16,
}

/// Lights never exceed full intensity, and their radius stays small enough
/// for the shadow geometry's pixel arithmetic.
pub open spec fn light_wf(l: Light) -> bool {
    l.intensity <= 1000 && l.radius <= 2000
}

/// Marker for floor tiles, drawn below everything.
#[derive(Clone, Copy, PartialEq, Eq, Structural, Debug)]
pub struct Floor {}

/// Marker for walls; they occlude light and block movement.
#[derive(Clone, Copy, PartialEq, Eq, Structural, Debug)]
pub struct Wall {}

/// Marker for props, drawn above floors but below depth-sorted entities.
#[derive(Clone, Copy, PartialEq, Eq, Structural, Debug)]
pub struct Prop {}

/// Marker for immovable entities: collision resolution never shifts them.
#[derive(Clone, Copy, PartialEq, Eq, Structural, Debug)]
pub struct Static {}

/// What interacting with an entity does. The original design stored a
/// closure; the one behavior the game wires up is spelled out here and run
/// by the player-update system.
#[derive(Clone, Copy, PartialEq, Eq, Structural, Debug)]
pub enum InteractAction {
    /// Flip the lever's own sprite and toggle the particle emitter the world
    /// points at, switching its light between the given radius and zero.
    ToggleEmitter { lit_radius: u16 },
}

/// Interact actions keep the lights they set within the lighting bound.
pub open spec fn interact_wf(a: InteractAction) -> bool {
    match a {
        InteractAction::ToggleEmitter { lit_radius } => lit_radius <= 2000,
    }
}

/// Something the player can interact with when close enough.
#[derive(Clone, Copy, PartialEq, Eq, Structural, Debug)]
pub struct Interactable {
    pub on_interact: InteractAction,
}

/// An indicator sprite shown when the player is within `range` subunits.
#[derive(Clone, Copy, PartialEq, Eq, Structural, Debug)]
pub struct ProximityIndicator {
    pub range: u64,
    pub sprite: AnimatedSprite,
}

/// Spawns resting particles on a cooldown while active.
#[derive(Clone, Copy, PartialEq, Eq, Structural, Debug)]
pub struct ParticleEmitter {
    pub is_active: bool,
    pub particle_cooldown: u32,
    pub particle_ticks_left: u32,
}

} // verus!
