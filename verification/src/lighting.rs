//! The lighting pass: for every contributing light, a screen-space draw
//! center, a color scaled by intensity, and the shadow wedges cast by wall
//! occluders.
//!
//! A wedge is built from the two silhouette corners of an occluder's
//! axis-aligned box — chosen by the sign relationship between the vector
//! from the light to the occluder's center — projected away from the light
//! to twice its radius. Using the box corners rather than true tangent
//! points is a deliberate visual approximation, kept as is.

use vstd::prelude::*;

use vstd::arithmetic::div_mod::{lemma_div_is_ordered, lemma_div_multiples_vanish};

use crate::components::{pos_wf, Light, Pos};
use crate::geom::{rect_overlap, rect_wf, rects_intersect, Color, Rect};
use crate::math::{div_i64, div_trunc, floor_sqrt, isqrt, lemma_div_bound, round_px, round_to_px};
use crate::world::{world_wf, EntityRecord, World};

verus! {

/// Whether a light contributes to the frame at all. A light with no radius
/// or no intensity adds nothing, and its mask need not be built: its output
/// is identical to that of any other non-contributing light.
pub open spec fn light_contributes(l: Light) -> bool {
    l.radius > 0 && l.intensity > 0
}

/// Idempotent empty-light culling: a light with zero radius contributes
/// exactly what a fully transparent light contributes — nothing — so
/// skipping its mask rebuild cannot change the frame.
pub proof fn lemma_empty_light_culling(zero_radius: Light, transparent: Light)
    requires
        zero_radius.radius == 0,
        transparent.intensity == 0,
    ensures
        !light_contributes(zero_radius),
        !light_contributes(transparent),
{
}

/// The sign of `v`: -1, 0 or 1.
pub open spec fn sign(v: int) -> int {
    if v > 0 {
        1
    } else if v < 0 {
        -1
    } else {
        0
    }
}

/// The sign of `v` as executable code.
pub fn sign_i32(v: i32) -> (r: i32)
    ensures
        r == sign(v as int),
{
    if v > 0 {
        1
    } else if v < 0 {
        -1
    } else {
        0
    }
}

/// One coordinate of a silhouette corner projected away from the light to
/// twice its radius: the corner-to-light direction scaled by `2 * radius /
/// length`, subtracted from the light. A corner exactly on the light
/// projects along a zero-angle ray, whose unit vector is `unit0` on this
/// axis: 1 for x, 0 for y.
pub open spec fn projected(l: int, v: int, len: int, r2: int, unit0: int) -> int {
    if len == 0 {
        l - r2 * unit0
    } else {
        l - div_trunc(v * r2, len)
    }
}

/// A shadow wedge: the two silhouette corners and their projections, in fan
/// order.
#[derive(Clone, Copy, PartialEq, Eq, Debug)]
pub struct ShadowQuad {
    pub p0: (i32, i32),
    pub p1: (i32, i32),
    pub p1_prime: (i32, i32),
    pub p0_prime: (i32, i32),
}

/// The wedge an occluder overlap rectangle casts from a light at `lp` (both
/// in screen pixels). `p0`/`p1` are the silhouette corners: when the light
/// sits diagonally (same-sign offsets) they are the bottom-left and
/// top-right corners, otherwise the top-left and bottom-right.
pub open spec fn quad_for(lp: (i32, i32), radius: u16, rect: Rect) -> ShadowQuad {
    let cx = rect.x + rect.w / 2;
    let cy = rect.y + rect.h / 2;
    let dx = lp.0 - cx;
    let dy = lp.1 - cy;
    let same = sign(dx) == sign(dy);
    let p0x: int = if same {
        rect.x as int
    } else {
        rect.x as int
    };
    let p0y: int = if same {
        rect.y + rect.h
    } else {
        rect.y as int
    };
    let p1x: int = rect.x + rect.w;
    let p1y: int = if same {
        rect.y as int
    } else {
        rect.y + rect.h
    };
    let v0x = lp.0 - p0x;
    let v0y = lp.1 - p0y;
    let v1x = lp.0 - p1x;
    let v1y = lp.1 - p1y;
    let len0 = floor_sqrt((v0x * v0x + v0y * v0y) as nat) as int;
    let len1 = floor_sqrt((v1x * v1x + v1y * v1y) as nat) as int;
    let r2 = 2 * radius;
    ShadowQuad {
        p0: (p0x as i32, p0y as i32),
        p1: (p1x as i32, p1y as i32),
        p1_prime: (
            projected(lp.0 as int, v1x, len1, r2, 1) as i32,
            projected(lp.1 as int, v1y, len1, r2, 0) as i32,
        ),
        p0_prime: (
            projected(lp.0 as int, v0x, len0, r2, 1) as i32,
            projected(lp.1 as int, v0y, len0, r2, 0) as i32,
        ),
    }
}

/// Screen coordinates stay comfortably inside `i32` arithmetic range.
pub open spec fn screen_pt_wf(p: (i32, i32)) -> bool {
    -0x2000_0000 <= p.0 <= 0x2000_0000 && -0x2000_0000 <= p.1 <= 0x2000_0000
}

/// Projects one coordinate pair of a silhouette corner.
fn project_corner(lp: (i32, i32), px: i32, py: i32, r2: u32) -> (r: (i32, i32))
    requires
        screen_pt_wf(lp),
        screen_pt_wf((px, py)),
        r2 <= 4000,
    ensures
        ({
            let vx = lp.0 - px;
            let vy = lp.1 - py;
            let len = floor_sqrt((vx * vx + vy * vy) as nat) as int;
            r.0 == projected(lp.0 as int, vx as int, len, r2 as int, 1) && r.1 == projected(
                lp.1 as int,
                vy as int,
                len,
                r2 as int,
                0,
            )
        }),
{
    let vx: i64 = (lp.0 as i64) - (px as i64);
    let vy: i64 = (lp.1 as i64) - (py as i64);
    proof {
        assert(vx * vx >= 0 && vy * vy >= 0 && vx * vx + vy * vy < 0x4000_0000_0000_0000)
            by (nonlinear_arith)
            requires -0x4000_0000 <= vx <= 0x4000_0000 && -0x4000_0000 <= vy <= 0x4000_0000;
    }
    let xa: u64 = if vx >= 0 {
        vx as u64
    } else {
        (-vx) as u64
    };
    let ya: u64 = if vy >= 0 {
        vy as u64
    } else {
        (-vy) as u64
    };
    proof {
        assert(xa * xa == vx * vx && ya * ya == vy * vy) by (nonlinear_arith)
            requires
                xa == if vx >= 0 { vx as int } else { -(vx as int) },
                ya == if vy >= 0 { vy as int } else { -(vy as int) };
    }
    let len: u64 = isqrt(xa * xa + ya * ya);
    if len == 0 {
        ((lp.0 - (r2 as i32)), lp.1)
    } else {
        proof {
            crate::math::lemma_floor_sqrt((vx * vx + vy * vy) as nat);
            assert((len as int) * (len as int) <= vx * vx + vy * vy < ((len as int) + 1) * ((
            len as int) + 1));
            assert(-(len as int) <= vx <= len as int && -(len as int) <= vy <= len as int
                && len < 0x8000_0000) by (nonlinear_arith)
                requires
                    vx * vx + vy * vy < ((len as int) + 1) * ((len as int) + 1) && (len as int) * (
                    len as int) <= vx * vx + vy * vy && vx * vx + vy * vy
                        < 0x4000_0000_0000_0000 && len >= 0;
            lemma_div_bound(vx as int, len as int, r2 as int);
            lemma_div_bound(vy as int, len as int, r2 as int);
            assert(-0x1_0000_0000_0000 <= vx * (r2 as i64) <= 0x1_0000_0000_0000
                && -0x1_0000_0000_0000 <= vy * (r2 as i64) <= 0x1_0000_0000_0000)
                by (nonlinear_arith)
                requires
                    -0x4000_0000 <= vx <= 0x4000_0000 && -0x4000_0000 <= vy <= 0x4000_0000 && 0
                        <= r2 <= 4000;
        }
        let ox: i64 = div_i64(vx * (r2 as i64), len as i64);
        let oy: i64 = div_i64(vy * (r2 as i64), len as i64);
        (((lp.0 as i64) - ox) as i32, ((lp.1 as i64) - oy) as i32)
    }
}

/// Builds the shadow wedge one occluder casts from a light, if the occluder
/// overlaps the light's bounding square.
pub fn occluder_quad(lp: (i32, i32), radius: u16, occ: Rect) -> (r: Option<ShadowQuad>)
    requires
        screen_pt_wf(lp),
        -0x1100_0000 <= occ.x <= 0x1100_0000,
        -0x1100_0000 <= occ.y <= 0x1100_0000,
        0 < occ.w <= 4096,
        0 < occ.h <= 4096,
        0 < radius <= 2000,
    ensures
        ({
            let bounds = Rect {
                x: (lp.0 - radius) as i32,
                y: (lp.1 - radius) as i32,
                w: (2 * radius) as u32,
                h: (2 * radius) as u32,
            };
            &&& (r is Some <==> rects_intersect(bounds, occ))
            &&& (r is Some ==> r->Some_0 == quad_for(lp, radius, rect_overlap(bounds, occ)))
        }),
{
    let bounds = Rect::new(
        lp.0 - (radius as i32),
        lp.1 - (radius as i32),
        2 * (radius as u32),
        2 * (radius as u32),
    );
    let clipped = match bounds.intersection(&occ) {
        Some(c) => c,
        None => {
            return None;
        },
    };
    let c = clipped.center();
    let dx = lp.0 - c.0;
    let dy = lp.1 - c.1;
    let same = sign_i32(dx) == sign_i32(dy);
    let p0: (i32, i32) = if same {
        (clipped.x, clipped.bottom())
    } else {
        (clipped.x, clipped.y)
    };
    let p1: (i32, i32) = if same {
        (clipped.right(), clipped.y)
    } else {
        (clipped.right(), clipped.bottom())
    };
    let r2: u32 = 2 * (radius as u32);
    let p0_prime = project_corner(lp, p0.0, p0.1, r2);
    let p1_prime = project_corner(lp, p1.0, p1.1, r2);
    Some(ShadowQuad { p0, p1, p1_prime, p0_prime })
}

} // verus!

verus! {

/// One light's finished pass: where to draw its falloff sprite, how to tint
/// it, and the shadow wedges to punch out of its mask.
pub struct LightPass {
    pub center: (i32, i32),
    pub radius: u16,
    pub color_mod: Color,
    pub quads: Vec<ShadowQuad>,
}

/// The ghost view of a pass, with the wedges as a sequence.
pub struct LightPassSpec {
    pub center: (i32, i32),
    pub radius: u16,
    pub color_mod: Color,
    pub quads: Seq<ShadowQuad>,
}

/// The ghost view of an executable pass.
pub open spec fn pass_view(p: LightPass) -> LightPassSpec {
    LightPassSpec { center: p.center, radius: p.radius, color_mod: p.color_mod, quads: p.quads@ }
}

/// The light's tint scaled by its intensity, in thousandths.
pub open spec fn light_color_mod(l: Light) -> Color {
    Color {
        r: (l.color.r * l.intensity / 1000) as u8,
        g: (l.color.g * l.intensity / 1000) as u8,
        b: (l.color.b * l.intensity / 1000) as u8,
    }
}

/// The world bounds of a wall's solid collider, if the record is a wall
/// occluder.
pub open spec fn wall_occluder(r: EntityRecord) -> Option<Rect> {
    if r.wall is Some && r.colliders is Some && r.colliders->Some_0.nav is Some {
        Some(r.colliders->Some_0.nav->Some_0.bounds)
    } else {
        None
    }
}

/// The light's bounding square in screen pixels.
pub open spec fn light_bounds(lp: (i32, i32), radius: u16) -> Rect {
    Rect {
        x: (lp.0 - radius) as i32,
        y: (lp.1 - radius) as i32,
        w: (2 * radius) as u32,
        h: (2 * radius) as u32,
    }
}

/// The wedges cast by the first `n` entities' wall occluders, in entity
/// order. Occluders outside the light's bounding square are culled.
pub open spec fn quads_upto(
    ents: Seq<Option<EntityRecord>>,
    lp: (i32, i32),
    radius: u16,
    cam: (i32, i32),
    n: int,
) -> Seq<ShadowQuad>
    decreases n,
{
    if n <= 0 {
        Seq::empty()
    } else {
        quads_upto(ents, lp, radius, cam, n - 1) + match ents[n - 1] {
            Some(r) => match wall_occluder(r) {
                Some(b) => {
                    let occ = Rect { x: (b.x - cam.0) as i32, y: (b.y - cam.1) as i32, ..b };
                    if rects_intersect(light_bounds(lp, radius), occ) {
                        seq![quad_for(lp, radius, rect_overlap(light_bounds(lp, radius), occ))]
                    } else {
                        Seq::empty()
                    }
                },
                None => Seq::empty(),
            },
            None => Seq::empty(),
        }
    }
}

/// A light's screen position under the camera.
pub open spec fn light_screen_pos(p: Pos, cam: (i32, i32)) -> (i32, i32) {
    ((round_to_px(p.x as int) - cam.0) as i32, (round_to_px(p.y as int) - cam.1) as i32)
}

/// The full pass of one light over a world.
pub open spec fn light_pass_spec(
    ents: Seq<Option<EntityRecord>>,
    r: EntityRecord,
    cam: (i32, i32),
) -> LightPassSpec {
    let l = r.light->Some_0;
    let lp = light_screen_pos(r.pos->Some_0, cam);
    LightPassSpec {
        center: lp,
        radius: l.radius,
        color_mod: light_color_mod(l),
        quads: quads_upto(ents, lp, l.radius, cam, ents.len() as int),
    }
}

/// The passes of the first `n` entities' contributing lights, in entity
/// order; lights with no radius or no intensity are culled entirely.
pub open spec fn passes_upto(ents: Seq<Option<EntityRecord>>, cam: (i32, i32), n: int) -> Seq<
    LightPassSpec,
>
    decreases n,
{
    if n <= 0 {
        Seq::empty()
    } else {
        passes_upto(ents, cam, n - 1) + match ents[n - 1] {
            Some(r) => {
                if r.light is Some && r.pos is Some && light_contributes(r.light->Some_0) {
                    seq![light_pass_spec(ents, r, cam)]
                } else {
                    Seq::empty()
                }
            },
            None => Seq::empty(),
        }
    }
}

/// Scales one color channel by the intensity.
fn scale_channel(c: u8, intensity: u16) -> (r: u8)
    requires
        intensity <= 1000,
    ensures
        r == (c * intensity / 1000) as u8,
{
    proof {
        assert(c * intensity <= 255 * 1000) by (nonlinear_arith)
            requires c <= 255 && intensity <= 1000;
        lemma_div_is_ordered((c * intensity) as int, (255 * 1000) as int, 1000int);
        lemma_div_multiples_vanish(255int, 1000int);
    }
    (((c as u32) * (intensity as u32)) / 1000) as u8
}

/// Builds the lighting pass of a frame: one entry per contributing light,
/// in entity order, each with its shadow wedges over the wall occluders.
pub fn build_lightmap(w: &World, cam: (i32, i32)) -> (r: Vec<LightPass>)
    requires
        world_wf(*w),
        0 <= cam.0 <= 0x1_0000,
        0 <= cam.1 <= 0x1_0000,
    ensures
        r@.map_values(|p: LightPass| pass_view(p)) == passes_upto(
            w.ents@,
            cam,
            w.ents@.len() as int,
        ),
{
    let n = w.ents.len();
    let mut out: Vec<LightPass> = Vec::new();
    let mut i: usize = 0;
    while i < n
        invariant
            world_wf(*w),
            n == w.ents@.len(),
            i <= n,
            0 <= cam.0 <= 0x1_0000,
            0 <= cam.1 <= 0x1_0000,
            out@.map_values(|p: LightPass| pass_view(p)) == passes_upto(w.ents@, cam, i as int),
        decreases n - i,
    {
        match w.ents[i] {
            Some(r) => {
                if r.light.is_some() && r.pos.is_some() {
                    let l = match r.light {
                        Some(l) => l,
                        None => Light { radius: 0, color: Color { r: 0, g: 0, b: 0 }, intensity: 0 },
                    };
                    let p = match r.pos {
                        Some(p) => p,
                        None => Pos { x: 0, y: 0 },
                    };
                    if l.radius > 0 && l.intensity > 0 {
                        let lpx: i32 = (round_px(p.x) as i32) - cam.0;
                        let lpy: i32 = (round_px(p.y) as i32) - cam.1;
                        let quads = collect_quads(w, (lpx, lpy), l.radius, cam);
                        let color_mod = Color {
                            r: scale_channel(l.color.r, l.intensity),
                            g: scale_channel(l.color.g, l.intensity),
                            b: scale_channel(l.color.b, l.intensity),
                        };
                        out.push(
                            LightPass { center: (lpx, lpy), radius: l.radius, color_mod, quads },
                        );
                    }
                }
            },
            None => {},
        }
        i = i + 1;
        proof {
            assert(out@.map_values(|p: LightPass| pass_view(p)) =~= passes_upto(
                w.ents@,
                cam,
                i as int,
            ));
        }
    }
    out
}

/// Collects the shadow wedges every wall occluder casts from one light.
fn collect_quads(w: &World, lp: (i32, i32), radius: u16, cam: (i32, i32)) -> (r: Vec<ShadowQuad>)
    requires
        world_wf(*w),
        screen_pt_wf(lp),
        0 < radius <= 2000,
        0 <= cam.0 <= 0x1_0000,
        0 <= cam.1 <= 0x1_0000,
    ensures
        r@ == quads_upto(w.ents@, lp, radius, cam, w.ents@.len() as int),
{
    let n = w.ents.len();
    let mut out: Vec<ShadowQuad> = Vec::new();
    let mut i: usize = 0;
    while i < n
        invariant
            world_wf(*w),
            n == w.ents@.len(),
            i <= n,
            screen_pt_wf(lp),
            0 < radius <= 2000,
            0 <= cam.0 <= 0x1_0000,
            0 <= cam.1 <= 0x1_0000,
            out@ == quads_upto(w.ents@, lp, radius, cam, i as int),
        decreases n - i,
    {
        match w.ents[i] {
            Some(r) => {
                if r.wall.is_some() && r.colliders.is_some() {
                    let g = match r.colliders {
                        Some(g) => g,
                        None => crate::components::ColliderGroup { nav: None, hitbox: None },
                    };
                    match g.nav {
                        Some(c) => {
                            let occ = Rect::new(
                                c.bounds.x - cam.0,
                                c.bounds.y - cam.1,
                                c.bounds.w,
                                c.bounds.h,
                            );
                            match occluder_quad(lp, radius, occ) {
                                Some(q) => {
                                    out.push(q);
                                },
                                None => {},
                            }
                        },
                        None => {},
                    }
                }
            },
            None => {},
        }
        i = i + 1;
        proof {
            assert(out@ =~= quads_upto(w.ents@, lp, radius, cam, i as int));
        }
    }
    out
}

} // verus!
