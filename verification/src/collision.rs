//! The per-tick collision pipeline: a fix phase that re-derives every
//! collider's world bounds from its owner's position, then a detect/resolve
//! phase that tests every collider pair allowed by the channel masks, sets
//! side flags by the minimum-penetration heuristic, applies a
//! penetration-plus-one-pixel push-out to movable solid bodies, and runs the
//! colliders' collision responses.

use vstd::prelude::*;

use crate::components::{
    collider_group_wf, collider_wf, fix_collider, fixed_bounds, pos_wf, Collider, CollisionResponse,
    Pos, Projectile,
};
use crate::geom::{rect_bottom, rect_left, rect_right, rect_top, rect_wf, rects_intersect, Rect};
use crate::math::{clamped_coord, Vec2};
use crate::world::{rec_wf, world_wf, ctx_fields_eq_but_queue, Entity, EntityRecord, World};

verus! {

/// How deep `a` has sunk past `b`'s top edge: pushing `a` up by this plus
/// one separates them upward.
pub open spec fn d_top(a: Rect, b: Rect) -> int {
    rect_bottom(a) - rect_top(b)
}

/// Depth past `b`'s bottom edge; separation is downward.
pub open spec fn d_bottom(a: Rect, b: Rect) -> int {
    rect_bottom(b) - rect_top(a)
}

/// Depth past `b`'s left edge; separation is leftward.
pub open spec fn d_left(a: Rect, b: Rect) -> int {
    rect_right(a) - rect_left(b)
}

/// Depth past `b`'s right edge; separation is rightward.
pub open spec fn d_right(a: Rect, b: Rect) -> int {
    rect_right(b) - rect_left(a)
}

/// The side flag a collision sets on the moving collider: the side of the
/// strictly smallest penetration depth. The comparison chain checks top,
/// then bottom, then left, then right; exact ties leave every flag unset.
#[derive(Clone, Copy, PartialEq, Eq, Structural, Debug)]
pub enum Side {
    Top,
    Bottom,
    Left,
    Right,
}

/// Which side flag an overlap of `a` into `b` sets, by minimum penetration.
pub open spec fn resolve_side(a: Rect, b: Rect) -> Option<Side> {
    let dt = d_top(a, b);
    let db = d_bottom(a, b);
    let dl = d_left(a, b);
    let dr = d_right(a, b);
    if dt < db && dt < dl && dt < dr {
        Some(Side::Bottom)
    } else if db < dt && db < dl && db < dr {
        Some(Side::Top)
    } else if dl < dr && dl < dt && dl < db {
        Some(Side::Right)
    } else if dr < dl && dr < dt && dr < db {
        Some(Side::Left)
    } else {
        None
    }
}

/// The push-out displacement in subunits: the minimum penetration depth plus
/// one pixel, along the separating axis, away from `b`.
pub open spec fn push_delta(a: Rect, b: Rect) -> (int, int) {
    match resolve_side(a, b) {
        Some(Side::Bottom) => (0, -(d_top(a, b) + 1) * 1000),
        Some(Side::Top) => (0, (d_bottom(a, b) + 1) * 1000),
        Some(Side::Right) => (-(d_left(a, b) + 1) * 1000, 0),
        Some(Side::Left) => ((d_right(a, b) + 1) * 1000, 0),
        None => (0, 0),
    }
}

/// Whether `c1` reacts to `c2`: the channel masks accept each other and the
/// world bounds strictly overlap.
pub open spec fn pair_hits(c1: Collider, c2: Collider) -> bool {
    c1.collides_with & c2.channels != 0 && rects_intersect(c1.bounds, c2.bounds)
}

/// Detection is symmetric: when two overlapping colliders' channel masks
/// accept each other, each detects the other, so both sides' collision
/// responses fire. (Which sides are positionally corrected is a separate,
/// asymmetric question: only movable solid bodies are.)
pub proof fn lemma_detection_symmetric(c1: Collider, c2: Collider)
    requires
        c1.collides_with & c2.channels != 0,
        c2.collides_with & c1.channels != 0,
        rects_intersect(c1.bounds, c2.bounds),
    ensures
        pair_hits(c1, c2),
        pair_hits(c2, c1),
{
}

/// `c1` after a detected overlap with `c2`: marked colliding, with the side
/// flag of the minimum-penetration axis set; bounds, masks and response are
/// untouched, and flags set by earlier overlaps this tick stay set.
pub open spec fn collider_after_hit(c1: Collider, c2: Collider) -> Collider {
    let side = resolve_side(c1.bounds, c2.bounds);
    Collider {
        is_colliding: true,
        top: c1.top || side == Some(Side::Top),
        bottom: c1.bottom || side == Some(Side::Bottom),
        left: c1.left || side == Some(Side::Left),
        right: c1.right || side == Some(Side::Right),
        ..c1
    }
}

/// The owner's position after a detected overlap: pushed out by penetration
/// plus one pixel when `moves` (a movable solid body), otherwise unchanged.
pub open spec fn pos_after_hit(p: Pos, c1: Collider, c2: Collider, moves: bool) -> Pos {
    if moves {
        let d = push_delta(c1.bounds, c2.bounds);
        Pos { x: clamped_coord(p.x + d.0) as i64, y: clamped_coord(p.y + d.1) as i64 }
    } else {
        p
    }
}

/// Penetration resolution: when the overlap is strictly shallowest on one
/// axis, a movable solid body is pushed out along exactly that axis by the
/// penetration depth plus one pixel, and the matching side flag is set.
pub proof fn lemma_penetration_resolution(c1: Collider, c2: Collider, p: Pos)
    requires
        pair_hits(c1, c2),
    ensures
        d_right(c1.bounds, c2.bounds) < d_left(c1.bounds, c2.bounds) && d_right(
            c1.bounds,
            c2.bounds,
        ) < d_top(c1.bounds, c2.bounds) && d_right(c1.bounds, c2.bounds) < d_bottom(
            c1.bounds,
            c2.bounds,
        ) ==> collider_after_hit(c1, c2).left && pos_after_hit(p, c1, c2, true).x == clamped_coord(
            p.x + (d_right(c1.bounds, c2.bounds) + 1) * 1000,
        ) && pos_after_hit(p, c1, c2, true).y == clamped_coord(p.y + 0),
        d_left(c1.bounds, c2.bounds) < d_right(c1.bounds, c2.bounds) && d_left(
            c1.bounds,
            c2.bounds,
        ) < d_top(c1.bounds, c2.bounds) && d_left(c1.bounds, c2.bounds) < d_bottom(
            c1.bounds,
            c2.bounds,
        ) ==> collider_after_hit(c1, c2).right && pos_after_hit(p, c1, c2, true).x == clamped_coord(
            p.x - (d_left(c1.bounds, c2.bounds) + 1) * 1000,
        ),
        d_top(c1.bounds, c2.bounds) < d_bottom(c1.bounds, c2.bounds) && d_top(c1.bounds, c2.bounds)
            < d_left(c1.bounds, c2.bounds) && d_top(c1.bounds, c2.bounds) < d_right(
            c1.bounds,
            c2.bounds,
        ) ==> collider_after_hit(c1, c2).bottom && pos_after_hit(p, c1, c2, true).y
            == clamped_coord(p.y - (d_top(c1.bounds, c2.bounds) + 1) * 1000),
        d_bottom(c1.bounds, c2.bounds) < d_top(c1.bounds, c2.bounds) && d_bottom(
            c1.bounds,
            c2.bounds,
        ) < d_left(c1.bounds, c2.bounds) && d_bottom(c1.bounds, c2.bounds) < d_right(
            c1.bounds,
            c2.bounds,
        ) ==> collider_after_hit(c1, c2).top && pos_after_hit(p, c1, c2, true).y == clamped_coord(
            p.y + (d_bottom(c1.bounds, c2.bounds) + 1) * 1000,
        ),
{
}

/// Runs one pairwise test: detection by channel mask and overlap, flag
/// setting by minimum penetration, and the push-out when `moves`.
pub fn collide_pair(c1: &mut Collider, pos: &mut Pos, c2: &Collider, moves: bool) -> (hit: bool)
    requires
        collider_wf(*old(c1)),
        collider_wf(*c2),
        pos_wf(*old(pos)),
    ensures
        hit == pair_hits(*old(c1), *c2),
        !hit ==> *final(c1) == *old(c1) && *final(pos) == *old(pos),
        hit ==> *final(c1) == collider_after_hit(*old(c1), *c2),
        hit ==> *final(pos) == pos_after_hit(*old(pos), *old(c1), *c2, moves),
        collider_wf(*final(c1)),
        pos_wf(*final(pos)),
{
    if !(c1.collides_with & c2.channels != 0 && c1.bounds.has_intersection(&c2.bounds)) {
        return false;
    }
    c1.is_colliding = true;

    let db: i32 = c2.bounds.bottom() - c1.bounds.y;
    let dt: i32 = c1.bounds.bottom() - c2.bounds.y;
    let dl: i32 = c1.bounds.right() - c2.bounds.x;
    let dr: i32 = c2.bounds.right() - c1.bounds.x;

    if dt < db && dt < dl && dt < dr {
        c1.bottom = true;
        if moves {
            pos.y = crate::math::add_coord(pos.y, -((dt as i64) + 1) * 1000);
        }
    } else if db < dt && db < dl && db < dr {
        c1.top = true;
        if moves {
            pos.y = crate::math::add_coord(pos.y, ((db as i64) + 1) * 1000);
        }
    } else if dl < dr && dl < dt && dl < db {
        c1.right = true;
        if moves {
            pos.x = crate::math::add_coord(pos.x, -((dl as i64) + 1) * 1000);
        }
    } else if dr < dl && dr < dt && dr < db {
        c1.left = true;
        if moves {
            pos.x = crate::math::add_coord(pos.x, ((dr as i64) + 1) * 1000);
        }
    }
    true
}

} // verus!

verus! {

/// A record after the fix phase: present colliders take world bounds derived
/// from the owner's position; everything else is untouched. Records without
/// a position or without colliders are excluded from the phase.
pub open spec fn rec_after_fix(r: EntityRecord) -> EntityRecord {
    if r.pos is Some && r.colliders is Some {
        let p = r.pos->Some_0;
        let g = r.colliders->Some_0;
        EntityRecord {
            colliders: Some(
                crate::components::ColliderGroup {
                    nav: match g.nav {
                        Some(c) => Some(Collider { bounds: fixed_bounds(c, p), ..c }),
                        None => None,
                    },
                    hitbox: match g.hitbox {
                        Some(c) => Some(Collider { bounds: fixed_bounds(c, p), ..c }),
                        None => None,
                    },
                },
            ),
            ..r
        }
    } else {
        r
    }
}

/// Fix phase: every entity with a position and colliders gets each present
/// collider's world bounds recomputed as its rounded position plus the
/// collider's local offset. Bounds are never ground truth; this phase
/// re-derives them every tick before detection.
pub fn fix_colliders(w: &mut World)
    requires
        world_wf(*old(w)),
    ensures
        world_wf(*final(w)),
        final(w).ents@.len() == old(w).ents@.len(),
        final(w).ctx == old(w).ctx,
        forall|i: int|
            0 <= i < old(w).ents@.len() ==> final(w).ents@[i] == match old(w).ents@[i] {
                Some(r) => Some(rec_after_fix(r)),
                None => None,
            },
{
    let n = w.ents.len();
    let mut i: usize = 0;
    while i < n
        invariant
            world_wf(*w),
            n == w.ents@.len(),
            i <= n,
            w.ents@.len() == old(w).ents@.len(),
            w.ctx == old(w).ctx,
            forall|j: int| i <= j < n ==> w.ents@[j] == old(w).ents@[j],
            forall|j: int|
                0 <= j < i ==> w.ents@[j] == match old(w).ents@[j] {
                    Some(r) => Some(rec_after_fix(r)),
                    None => None,
                },
        decreases n - i,
    {
        match w.ents[i] {
            Some(r) => {
                if r.pos.is_some() && r.colliders.is_some() {
                    let mut rec = r;
                    let p = match rec.pos {
                        Some(p) => p,
                        None => Pos { x: 0, y: 0 },
                    };
                    let mut g = match rec.colliders {
                        Some(g) => g,
                        None => crate::components::ColliderGroup { nav: None, hitbox: None },
                    };
                    match g.nav {
                        Some(c) => {
                            let mut c = c;
                            fix_collider(&mut c, p);
                            g.nav = Some(c);
                        },
                        None => {},
                    }
                    match g.hitbox {
                        Some(c) => {
                            let mut c = c;
                            fix_collider(&mut c, p);
                            g.hitbox = Some(c);
                        },
                        None => {},
                    }
                    rec.colliders = Some(g);
                    w.ents[i] = Some(rec);
                }
            },
            None => {},
        }
        i = i + 1;
    }
}

/// The running state of one collider's scan over all other entities: the
/// collider's accumulating flags, the owner's position, the despawn-queue
/// entries the collision responses asked for, and whether a halt response
/// fired.
pub struct ScanState {
    pub c1: Collider,
    pub pos: Pos,
    pub pushes: Seq<Entity>,
    pub halt: bool,
}

/// The despawn-queue entries one detected overlap contributes: the owner for
/// a despawn-on-contact response, the owner when the other entity is a
/// projectile for a despawn-on-projectile response, nothing otherwise.
pub open spec fn response_pushes(c1: Collider, self_e: Entity, other: EntityRecord) -> Seq<Entity> {
    match c1.on_collide {
        Some(CollisionResponse::DespawnSelf) => seq![self_e],
        Some(CollisionResponse::DespawnSelfOnProjectile) => if other.projectile is Some {
            seq![self_e]
        } else {
            Seq::empty()
        },
        _ => Seq::empty(),
    }
}

/// One pairwise test folded into the scan state. Colliding with oneself is
/// impossible: the entity-identity check comes first.
pub open spec fn test_step(
    st: ScanState,
    self_i: int,
    other_i: int,
    other: EntityRecord,
    c2: Collider,
    moves: bool,
) -> ScanState {
    if self_i != other_i && pair_hits(st.c1, c2) {
        ScanState {
            c1: collider_after_hit(st.c1, c2),
            pos: pos_after_hit(st.pos, st.c1, c2, moves),
            pushes: st.pushes + response_pushes(st.c1, Entity { id: self_i as usize }, other),
            halt: st.halt || st.c1.on_collide == Some(CollisionResponse::HaltSelf),
        }
    } else {
        st
    }
}

/// One other entity folded into the scan state: its solid collider is tested
/// first, then its hitbox.
pub open spec fn entity_step(
    st: ScanState,
    self_i: int,
    other_i: int,
    ents: Seq<Option<EntityRecord>>,
    moves: bool,
) -> ScanState {
    match ents[other_i] {
        None => st,
        Some(r2) => match r2.colliders {
            None => st,
            Some(g) => {
                let st1 = match g.nav {
                    Some(c2) => test_step(st, self_i, other_i, r2, c2, moves),
                    None => st,
                };
                match g.hitbox {
                    Some(c2) => test_step(st1, self_i, other_i, r2, c2, moves),
                    None => st1,
                }
            },
        },
    }
}

/// The scan state after testing against the first `n` entities in order.
pub open spec fn scan_pass(
    st: ScanState,
    self_i: int,
    ents: Seq<Option<EntityRecord>>,
    moves: bool,
    n: int,
) -> ScanState
    decreases n,
{
    if n <= 0 {
        st
    } else {
        entity_step(scan_pass(st, self_i, ents, moves, n - 1), self_i, n - 1, ents, moves)
    }
}

/// A collider with its per-tick detection flags cleared, as each scan begins.
pub open spec fn reset_flags(c: Collider) -> Collider {
    Collider { is_colliding: false, left: false, right: false, top: false, bottom: false, ..c }
}

} // verus!

verus! {

/// Runs one collider's scan against every entity of the snapshot in index
/// order, returning the accumulated flags, pushed-out position, requested
/// despawns and halt.
#[verifier::rlimit(60)]
fn run_scan_pass(
    snap: &Vec<Option<EntityRecord>>,
    self_idx: usize,
    c_start: Collider,
    p_start: Pos,
    moves: bool,
) -> (r: (Collider, Pos, Vec<Entity>, bool))
    requires
        collider_wf(c_start),
        pos_wf(p_start),
        self_idx < snap@.len(),
        forall|j: int|
            0 <= j < snap@.len() && (#[trigger] snap@[j]) is Some ==> rec_wf(snap@[j]->Some_0),
    ensures
        ({
            let st = scan_pass(
                ScanState { c1: c_start, pos: p_start, pushes: Seq::empty(), halt: false },
                self_idx as int,
                snap@,
                moves,
                snap@.len() as int,
            );
            &&& r.0 == st.c1
            &&& r.1 == st.pos
            &&& r.2@ == st.pushes
            &&& r.3 == st.halt
        }),
        collider_wf(r.0),
        pos_wf(r.1),
        forall|k: int| 0 <= k < r.2@.len() ==> (#[trigger] r.2@[k]).id == self_idx,
{
    let ghost st0 = ScanState { c1: c_start, pos: p_start, pushes: Seq::empty(), halt: false };
    let mut c1 = c_start;
    let mut pos = p_start;
    let mut pushes: Vec<Entity> = Vec::new();
    let mut halt = false;
    let mut j: usize = 0;
    let n = snap.len();
    while j < n
        invariant
            n == snap@.len(),
            j <= n,
            self_idx < n,
            collider_wf(c1),
            pos_wf(pos),
            forall|jj: int|
                0 <= jj < snap@.len() && (#[trigger] snap@[jj]) is Some ==> rec_wf(
                    snap@[jj]->Some_0,
                ),
            ({
                let st = scan_pass(st0, self_idx as int, snap@, moves, j as int);
                &&& c1 == st.c1
                &&& pos == st.pos
                &&& pushes@ == st.pushes
                &&& halt == st.halt
            }),
            forall|k: int| 0 <= k < pushes@.len() ==> (#[trigger] pushes@[k]).id == self_idx,
        decreases n - j,
    {
        if j != self_idx {
            match snap[j] {
                Some(r2) => {
                    match r2.colliders {
                        Some(g) => {
                            match g.nav {
                                Some(c2) => {
                                    let resp = c1.on_collide;
                                    let hit = collide_pair(&mut c1, &mut pos, &c2, moves);
                                    if hit {
                                        match resp {
                                            Some(CollisionResponse::DespawnSelf) => {
                                                pushes.push(Entity { id: self_idx });
                                            },
                                            Some(CollisionResponse::DespawnSelfOnProjectile) => {
                                                if r2.projectile.is_some() {
                                                    pushes.push(Entity { id: self_idx });
                                                }
                                            },
                                            Some(CollisionResponse::HaltSelf) => {
                                                halt = true;
                                            },
                                            None => {},
                                        }
                                    }
                                },
                                None => {},
                            }
                            match g.hitbox {
                                Some(c2) => {
                                    let resp = c1.on_collide;
                                    let hit = collide_pair(&mut c1, &mut pos, &c2, moves);
                                    if hit {
                                        match resp {
                                            Some(CollisionResponse::DespawnSelf) => {
                                                pushes.push(Entity { id: self_idx });
                                            },
                                            Some(CollisionResponse::DespawnSelfOnProjectile) => {
                                                if r2.projectile.is_some() {
                                                    pushes.push(Entity { id: self_idx });
                                                }
                                            },
                                            Some(CollisionResponse::HaltSelf) => {
                                                halt = true;
                                            },
                                            None => {},
                                        }
                                    }
                                },
                                None => {},
                            }
                        },
                        None => {},
                    }
                },
                None => {},
            }
        }
        j = j + 1;
        proof {
            let st = scan_pass(st0, self_idx as int, snap@, moves, j as int);
            assert(pushes@ =~= st.pushes);
        }
    }
    (c1, pos, pushes, halt)
}

} // verus!

verus! {

/// The starting scan state of a collider: flags cleared, the owner's
/// position, no requested despawns.
pub open spec fn init_scan(c: Collider, p: Pos) -> ScanState {
    ScanState { c1: reset_flags(c), pos: p, pushes: Seq::empty(), halt: false }
}

/// A record with a halt response applied: its projectile, if any, stops.
pub open spec fn halt_applied(r: EntityRecord, halt: bool) -> EntityRecord {
    if halt && r.projectile is Some {
        EntityRecord {
            projectile: Some(
                Projectile { velocity: Vec2 { x: 0, y: 0 }, ..r.projectile->Some_0 },
            ),
            ..r
        }
    } else {
        r
    }
}

/// A record updated by its solid collider's finished scan.
pub open spec fn apply_nav_pass(r: EntityRecord, st: ScanState) -> EntityRecord {
    halt_applied(
        EntityRecord {
            pos: Some(st.pos),
            colliders: Some(
                crate::components::ColliderGroup { nav: Some(st.c1), ..r.colliders->Some_0 },
            ),
            ..r
        },
        st.halt,
    )
}

/// A record updated by its hitbox's finished scan.
pub open spec fn apply_hitbox_pass(r: EntityRecord, st: ScanState) -> EntityRecord {
    halt_applied(
        EntityRecord {
            pos: Some(st.pos),
            colliders: Some(
                crate::components::ColliderGroup { hitbox: Some(st.c1), ..r.colliders->Some_0 },
            ),
            ..r
        },
        st.halt,
    )
}

/// Entity `i` after its solid collider's scan (or unchanged without one).
/// Solid bodies move only when their owner is not static.
pub open spec fn rec_after_nav(ents: Seq<Option<EntityRecord>>, i: int) -> EntityRecord {
    let r = ents[i]->Some_0;
    match r.colliders->Some_0.nav {
        Some(c) => apply_nav_pass(
            r,
            scan_pass(
                init_scan(c, r.pos->Some_0),
                i,
                ents,
                r.is_static is None,
                ents.len() as int,
            ),
        ),
        None => r,
    }
}

/// The despawns entity `i`'s solid collider's scan requests.
pub open spec fn nav_pushes(ents: Seq<Option<EntityRecord>>, i: int) -> Seq<Entity> {
    let r = ents[i]->Some_0;
    match r.colliders->Some_0.nav {
        Some(c) => scan_pass(
            init_scan(c, r.pos->Some_0),
            i,
            ents,
            r.is_static is None,
            ents.len() as int,
        ).pushes,
        None => Seq::empty(),
    }
}

/// Entity `i` after the whole detect/resolve phase: the solid collider's
/// scan, then the hitbox's. Hitboxes are sensors: their scan never moves the
/// owner. Entities without a position or colliders are excluded.
pub open spec fn rec_after_detect(ents: Seq<Option<EntityRecord>>, i: int) -> EntityRecord {
    let r = ents[i]->Some_0;
    if r.pos is Some && r.colliders is Some {
        let r1 = rec_after_nav(ents, i);
        match r1.colliders->Some_0.hitbox {
            Some(c) => apply_hitbox_pass(
                r1,
                scan_pass(init_scan(c, r1.pos->Some_0), i, ents, false, ents.len() as int),
            ),
            None => r1,
        }
    } else {
        r
    }
}

/// The despawns entity `i`'s detect/resolve phase requests, solid collider
/// first.
pub open spec fn detect_pushes(ents: Seq<Option<EntityRecord>>, i: int) -> Seq<Entity> {
    let r = ents[i]->Some_0;
    if r.pos is Some && r.colliders is Some {
        let r1 = rec_after_nav(ents, i);
        nav_pushes(ents, i) + match r1.colliders->Some_0.hitbox {
            Some(c) => scan_pass(
                init_scan(c, r1.pos->Some_0),
                i,
                ents,
                false,
                ents.len() as int,
            ).pushes,
            None => Seq::empty(),
        }
    } else {
        Seq::empty()
    }
}

/// All despawns the phase requests, in entity order.
pub open spec fn all_pushes(ents: Seq<Option<EntityRecord>>, n: int) -> Seq<Entity>
    decreases n,
{
    if n <= 0 {
        Seq::empty()
    } else {
        all_pushes(ents, n - 1) + if ents[n - 1] is Some {
            detect_pushes(ents, n - 1)
        } else {
            Seq::empty()
        }
    }
}

/// A scan that may not move its owner does not: sensors stay put.
pub proof fn lemma_scan_keeps_pos(
    st: ScanState,
    self_i: int,
    ents: Seq<Option<EntityRecord>>,
    n: int,
)
    ensures
        scan_pass(st, self_i, ents, false, n).pos == st.pos,
    decreases n,
{
    if n > 0 {
        lemma_scan_keeps_pos(st, self_i, ents, n - 1);
    }
}

/// Resolution asymmetry: an entity marked static is never moved by the
/// detect/resolve phase, whatever overlaps it detects.
pub proof fn lemma_static_not_corrected(ents: Seq<Option<EntityRecord>>, i: int)
    requires
        0 <= i < ents.len(),
        ents[i] is Some,
        ents[i]->Some_0.is_static is Some,
    ensures
        rec_after_detect(ents, i).pos == ents[i]->Some_0.pos,
{
    let r = ents[i]->Some_0;
    if r.pos is Some && r.colliders is Some {
        match r.colliders->Some_0.nav {
            Some(c) => {
                lemma_scan_keeps_pos(init_scan(c, r.pos->Some_0), i, ents, ents.len() as int);
            },
            None => {},
        }
        let r1 = rec_after_nav(ents, i);
        match r1.colliders->Some_0.hitbox {
            Some(c) => {
                lemma_scan_keeps_pos(init_scan(c, r1.pos->Some_0), i, ents, ents.len() as int);
            },
            None => {},
        }
    }
}

/// Detect/resolve phase. For every entity with a position and colliders,
/// each present collider's flags are reset and it is tested against every
/// other entity's colliders over a snapshot of the bounds the fix phase
/// computed; overlaps set flags, push movable solid bodies out, and run the
/// collision responses, whose despawn requests go onto the despawn queue in
/// entity order.
#[verifier::rlimit(100)]
pub fn detect_collisions(w: &mut World)
    requires
        world_wf(*old(w)),
    ensures
        world_wf(*final(w)),
        final(w).ents@.len() == old(w).ents@.len(),
        forall|i: int|
            0 <= i < old(w).ents@.len() ==> final(w).ents@[i] == match old(w).ents@[i] {
                Some(_) => Some(rec_after_detect(old(w).ents@, i)),
                None => None,
            },
        final(w).ctx.despawn_queue@ == old(w).ctx.despawn_queue@ + all_pushes(
            old(w).ents@,
            old(w).ents@.len() as int,
        ),
        ctx_fields_eq_but_queue(final(w).ctx, old(w).ctx),
{
    let ghost ents0 = w.ents@;
    let n = w.ents.len();
    let mut snap: Vec<Option<EntityRecord>> = Vec::new();
    let mut i: usize = 0;
    while i < n
        invariant
            world_wf(*w),
            *w == *old(w),
            ents0 == w.ents@,
            n == w.ents@.len(),
            i <= n,
            snap@.len() == i,
            forall|j: int| 0 <= j < i ==> snap@[j] == ents0[j],
        decreases n - i,
    {
        let r = w.ents[i];
        snap.push(r);
        i = i + 1;
    }
    proof {
        assert(snap@ =~= ents0);
    }
    i = 0;
    while i < n
        invariant
            world_wf(*w),
            n == w.ents@.len() == ents0.len(),
            i <= n,
            snap@ == ents0,
            forall|j: int|
                0 <= j < snap@.len() && (#[trigger] snap@[j]) is Some ==> rec_wf(snap@[j]->Some_0),
            forall|j: int| i <= j < n ==> w.ents@[j] == ents0[j],
            forall|j: int|
                0 <= j < i ==> w.ents@[j] == match ents0[j] {
                    Some(_) => Some(rec_after_detect(ents0, j)),
                    None => None,
                },
            w.ctx.despawn_queue@ == old(w).ctx.despawn_queue@ + all_pushes(ents0, i as int),
            ctx_fields_eq_but_queue(w.ctx, old(w).ctx),
        decreases n - i,
    {
        match w.ents[i] {
            Some(r) => {
                if r.pos.is_some() && r.colliders.is_some() {
                    let mut rec = r;
                    let movable = rec.is_static.is_none();
                    let p0 = match rec.pos {
                        Some(p) => p,
                        None => Pos { x: 0, y: 0 },
                    };
                    let g0 = match rec.colliders {
                        Some(g) => g,
                        None => crate::components::ColliderGroup { nav: None, hitbox: None },
                    };
                    let mut g = g0;
                    match g.nav {
                        Some(c) => {
                            let mut c1 = c;
                            c1.is_colliding = false;
                            c1.left = false;
                            c1.right = false;
                            c1.top = false;
                            c1.bottom = false;
                            assert(c1 == reset_flags(c));
                            let (c1f, posf, mut pushes, halt) = run_scan_pass(
                                &snap,
                                i,
                                c1,
                                p0,
                                movable,
                            );
                            g.nav = Some(c1f);
                            rec.pos = Some(posf);
                            if halt {
                                match rec.projectile {
                                    Some(pr) => {
                                        rec.projectile = Some(
                                            Projectile {
                                                velocity: Vec2::zero(),
                                                ticks_left: pr.ticks_left,
                                            },
                                        );
                                    },
                                    None => {},
                                }
                            }
                            w.ctx.despawn_queue.append(&mut pushes);
                        },
                        None => {},
                    }
                    rec.colliders = Some(g);
                    proof {
                        assert(rec == rec_after_nav(ents0, i as int));
                        assert(w.ctx.despawn_queue@ == old(w).ctx.despawn_queue@ + all_pushes(
                            ents0,
                            i as int,
                        ) + nav_pushes(ents0, i as int));
                    }
                    let p1 = match rec.pos {
                        Some(p) => p,
                        None => Pos { x: 0, y: 0 },
                    };
                    let g1 = match rec.colliders {
                        Some(g) => g,
                        None => crate::components::ColliderGroup { nav: None, hitbox: None },
                    };
                    let mut g = g1;
                    match g.hitbox {
                        Some(c) => {
                            let mut c1 = c;
                            c1.is_colliding = false;
                            c1.left = false;
                            c1.right = false;
                            c1.top = false;
                            c1.bottom = false;
                            assert(c1 == reset_flags(c));
                            let (c1f, posf, mut pushes, halt) = run_scan_pass(
                                &snap,
                                i,
                                c1,
                                p1,
                                false,
                            );
                            g.hitbox = Some(c1f);
                            rec.pos = Some(posf);
                            if halt {
                                match rec.projectile {
                                    Some(pr) => {
                                        rec.projectile = Some(
                                            Projectile {
                                                velocity: Vec2::zero(),
                                                ticks_left: pr.ticks_left,
                                            },
                                        );
                                    },
                                    None => {},
                                }
                            }
                            w.ctx.despawn_queue.append(&mut pushes);
                        },
                        None => {},
                    }
                    rec.colliders = Some(g);
                    proof {
                        assert(rec == rec_after_detect(ents0, i as int));
                        assert(w.ctx.despawn_queue@ =~= old(w).ctx.despawn_queue@ + all_pushes(
                            ents0,
                            i as int + 1,
                        ));
                    }
                    w.ents[i] = Some(rec);
                } else {
                    proof {
                        assert(rec_after_detect(ents0, i as int) == r);
                        assert(w.ctx.despawn_queue@ =~= old(w).ctx.despawn_queue@ + all_pushes(
                            ents0,
                            i as int + 1,
                        ));
                    }
                }
            },
            None => {
                proof {
                    assert(w.ctx.despawn_queue@ =~= old(w).ctx.despawn_queue@ + all_pushes(
                        ents0,
                        i as int + 1,
                    ));
                }
            },
        }
        i = i + 1;
    }
}

} // verus!

verus! {

/// Whether a record's colliders leave `c1` untouched: every collider it
/// carries either fails the channel test or does not overlap `c1`.
pub open spec fn entity_misses(c1: Collider, r: EntityRecord) -> bool {
    match r.colliders {
        Some(g) => (match g.nav {
            Some(c2) => !pair_hits(c1, c2),
            None => true,
        }) && (match g.hitbox {
            Some(c2) => !pair_hits(c1, c2),
            None => true,
        }),
        None => true,
    }
}

/// A scan over entities that all miss leaves the scan state untouched.
pub proof fn lemma_scan_all_miss(
    st: ScanState,
    self_i: int,
    ents: Seq<Option<EntityRecord>>,
    moves: bool,
    n: int,
)
    requires
        forall|j: int|
            0 <= j < n && j != self_i ==> match #[trigger] ents[j] {
                Some(r) => entity_misses(st.c1, r),
                None => true,
            },
    ensures
        scan_pass(st, self_i, ents, moves, n) == st,
    decreases n,
{
    if n > 0 {
        lemma_scan_all_miss(st, self_i, ents, moves, n - 1);
    }
}

/// Penetration resolution in general, at the phase level: when exactly one
/// collider is overlapped during a collider's scan, the scan's outcome is
/// that single pairwise test — the flag of the strictly minimum penetration
/// axis is set and a movable solid body is pushed out along exactly that
/// axis by the penetration depth plus one pixel, as
/// `lemma_penetration_resolution` states of the pair; exact ties set no
/// flag and move nothing. Overlaps detected against `c1` never alter its
/// bounds or masks, so later entities' misses are unaffected by the hit.
pub proof fn lemma_scan_single_hit(
    st: ScanState,
    self_i: int,
    ents: Seq<Option<EntityRecord>>,
    moves: bool,
    n: int,
    hit_i: int,
)
    requires
        0 <= hit_i < n,
        hit_i != self_i,
        ents[hit_i] is Some,
        ents[hit_i]->Some_0.colliders is Some,
        ents[hit_i]->Some_0.colliders->Some_0.nav is Some,
        pair_hits(st.c1, ents[hit_i]->Some_0.colliders->Some_0.nav->Some_0),
        match ents[hit_i]->Some_0.colliders->Some_0.hitbox {
            Some(c2) => !pair_hits(st.c1, c2),
            None => true,
        },
        forall|j: int|
            0 <= j < n && j != self_i && j != hit_i ==> match #[trigger] ents[j] {
                Some(r) => entity_misses(st.c1, r),
                None => true,
            },
    ensures
        scan_pass(st, self_i, ents, moves, n) == test_step(
            st,
            self_i,
            hit_i,
            ents[hit_i]->Some_0,
            ents[hit_i]->Some_0.colliders->Some_0.nav->Some_0,
            moves,
        ),
    decreases n,
{
    let c2 = ents[hit_i]->Some_0.colliders->Some_0.nav->Some_0;
    let t = test_step(st, self_i, hit_i, ents[hit_i]->Some_0, c2, moves);
    assert(t.c1.bounds == st.c1.bounds && t.c1.collides_with == st.c1.collides_with);
    if n - 1 == hit_i {
        lemma_scan_all_miss(st, self_i, ents, moves, n - 1);
    } else {
        lemma_scan_single_hit(st, self_i, ents, moves, n - 1, hit_i);
        if n - 1 != self_i {
            match ents[n - 1] {
                Some(r) => {
                    assert(entity_misses(st.c1, r));
                    assert(entity_misses(t.c1, r));
                },
                None => {},
            }
        }
    }
}

} // verus!
