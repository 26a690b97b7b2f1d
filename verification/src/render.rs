//! The per-frame render pass: animation stepping and the draw-command lists
//! the platform layer blits — floors first, then props, then the
//! depth-sorted world sprites, the toolbar, the proximity indicators, and
//! the lighting pass.

use vstd::prelude::*;

use crate::components::{AnimatedSprite, Pos, pos_wf, Sprite};
use crate::inventory::{scan_from, Item};
use crate::lighting::{build_lightmap, passes_upto, pass_view, LightPass};
use crate::math::{div_trunc, floor_sqrt, round_to_px, Vec3};
use crate::render_data::{depth_sorted, AnimationRepository, DepthBuffer, DrawCmd};
use crate::world::{world_wf, EntityRecord, World};
use crate::geom::Color;

verus! {

/// One frame's draw output, in paint order: floors, props, depth-sorted
/// world sprites, proximity indicators, the toolbar, and the lighting pass
/// over the given ambient.
pub struct RenderFrame {
    pub floors: Vec<DrawCmd>,
    pub props: Vec<DrawCmd>,
    pub depth: Vec<DrawCmd>,
    pub indicators: Vec<DrawCmd>,
    pub ui: Vec<DrawCmd>,
    pub lights: Vec<LightPass>,
    pub ambient: Color,
}

/// A sprite one animation step later: the tick clock advances (saturating at
/// its type's end) and rolls the frame over when it reaches the frame time;
/// the frame wraps to the start after the last index passed in.
pub open spec fn sprite_advanced(s: AnimatedSprite, last_frame: int) -> AnimatedSprite {
    let t: int = if s.ticks == u32::MAX {
        u32::MAX as int
    } else {
        s.ticks + 1
    };
    if t >= s.ticks_per_frame {
        AnimatedSprite {
            frame: if s.frame as int == last_frame || s.frame == u32::MAX {
                0
            } else {
                (s.frame + 1) as u32
            },
            ticks: 0,
            ..s
        }
    } else {
        AnimatedSprite { ticks: t as u32, ..s }
    }
}

/// Steps a sprite by one animation tick.
pub fn advance_sprite(s: &mut AnimatedSprite, last_frame: u32)
    ensures
        *final(s) == sprite_advanced(*old(s), last_frame as int),
{
    let t: u32 = if s.ticks == u32::MAX {
        u32::MAX
    } else {
        s.ticks + 1
    };
    if t >= s.ticks_per_frame {
        s.frame = if s.frame == last_frame || s.frame == u32::MAX {
            0
        } else {
            s.frame + 1
        };
        s.ticks = 0;
    } else {
        s.ticks = t;
    }
}

/// Whether a record can be drawn: it has a position and a sprite whose
/// animation resolves to a frame list that its frame counter indexes.
pub open spec fn drawable(r: EntityRecord, repo: AnimationRepository) -> bool {
    &&& r.pos is Some
    &&& r.sprite is Some
    &&& r.sprite->Some_0.anim.0 < repo.animations@.len()
    &&& r.sprite->Some_0.frame < repo.animations@[r.sprite->Some_0.anim.0 as int]@.len()
}

/// The draw command of a drawable record: its current frame at its position
/// plus sprite offset plus camera offset; depth-pass commands round the
/// position to pixels and carry a depth key, immediate ones truncate.
pub open spec fn cmd_of(r: EntityRecord, repo: AnimationRepository, cam: (i32, i32), rounded: bool) -> DrawCmd {
    let s = r.sprite->Some_0;
    let p = r.pos->Some_0;
    let frames = repo.animations@[s.anim.0 as int]@;
    let px: int = if rounded {
        round_to_px(p.x as int)
    } else {
        div_trunc(p.x as int, 1000)
    };
    let py: int = if rounded {
        round_to_px(p.y as int)
    } else {
        div_trunc(p.y as int, 1000)
    };
    DrawCmd {
        sprite: frames[s.frame as int],
        pos: Vec3 {
            x: (px + s.x_offset + cam.0) as i64,
            y: (py + s.y_offset + cam.1) as i64,
            z: (round_to_px(p.y as int) + (match s.z_offset {
                Some(z) => z as int,
                None => 0,
            })) as i64,
        },
        flip_horizontal: s.flip_horizontal,
    }
}

/// A record after the sprite pass: drawn records step their animation.
pub open spec fn rec_after_draw(r: EntityRecord, repo: AnimationRepository) -> EntityRecord {
    if drawable(r, repo) {
        let s = r.sprite->Some_0;
        let frames = repo.animations@[s.anim.0 as int]@;
        EntityRecord { sprite: Some(sprite_advanced(s, frames.len() - 1)), ..r }
    } else {
        r
    }
}

/// Which of the three sprite passes draws a record: floors first, props
/// next, everything else through the depth buffer.
pub open spec fn draw_class(r: EntityRecord) -> int {
    if r.floor is Some {
        0
    } else if r.prop is Some {
        1
    } else {
        2
    }
}

/// The draw commands of the first `n` entities that fall in `class` and are
/// drawable, in entity order.
pub open spec fn draws_upto(
    ents: Seq<Option<EntityRecord>>,
    repo: AnimationRepository,
    cam: (i32, i32),
    class: int,
    rounded: bool,
    n: int,
) -> Seq<DrawCmd>
    decreases n,
{
    if n <= 0 {
        Seq::empty()
    } else {
        draws_upto(ents, repo, cam, class, rounded, n - 1) + match ents[n - 1] {
            Some(r) => if draw_class(r) == class && drawable(r, repo) {
                seq![cmd_of(r, repo, cam, rounded)]
            } else {
                Seq::empty()
            },
            None => Seq::empty(),
        }
    }
}

/// Whether a proximity indicator is shown: the player is nearer than its
/// range.
pub open spec fn indicator_shown(r: EntityRecord, pp: Pos) -> bool {
    &&& r.proximity is Some
    &&& r.pos is Some
    &&& (floor_sqrt(
        ((pp.x - r.pos->Some_0.x) * (pp.x - r.pos->Some_0.x) + (pp.y - r.pos->Some_0.y) * (pp.y
            - r.pos->Some_0.y)) as nat,
    ) as int) < r.proximity->Some_0.range
}

/// A record after the indicator pass: shown indicators step their own sprite.
pub open spec fn rec_after_indicator(
    r: EntityRecord,
    repo: AnimationRepository,
    pp: Pos,
) -> EntityRecord {
    if indicator_shown(r, pp) && indicator_drawable(r, repo) {
        let s = r.proximity->Some_0.sprite;
        let frames = repo.animations@[s.anim.0 as int]@;
        EntityRecord {
            proximity: Some(
                crate::components::ProximityIndicator {
                    sprite: sprite_advanced(s, frames.len() - 1),
                    ..r.proximity->Some_0
                },
            ),
            ..r
        }
    } else {
        r
    }
}

/// Whether an indicator's own sprite can be drawn.
pub open spec fn indicator_drawable(r: EntityRecord, repo: AnimationRepository) -> bool {
    &&& r.proximity is Some
    &&& r.proximity->Some_0.sprite.anim.0 < repo.animations@.len()
    &&& r.proximity->Some_0.sprite.frame < repo.animations@[r.proximity->Some_0.sprite.anim.0 as int]@.len()
}

/// The indicator draw commands of the first `n` entities, in entity order:
/// each shown indicator's sprite, drawn one tile above its entity.
pub open spec fn indicators_upto(
    ents: Seq<Option<EntityRecord>>,
    repo: AnimationRepository,
    cam: (i32, i32),
    pp: Pos,
    n: int,
) -> Seq<DrawCmd>
    decreases n,
{
    if n <= 0 {
        Seq::empty()
    } else {
        indicators_upto(ents, repo, cam, pp, n - 1) + match ents[n - 1] {
            Some(r) => if indicator_shown(r, pp) && indicator_drawable(r, repo) {
                let s = r.proximity->Some_0.sprite;
                let frames = repo.animations@[s.anim.0 as int]@;
                let p = r.pos->Some_0;
                seq![
                    DrawCmd {
                        sprite: frames[s.frame as int],
                        pos: Vec3 {
                            x: (div_trunc(p.x as int, 1000) + s.x_offset + cam.0) as i64,
                            y: (div_trunc((p.y - 32_000) as int, 1000) + s.y_offset + cam.1) as i64,
                            z: 0,
                        },
                        flip_horizontal: s.flip_horizontal,
                    },
                ]
            } else {
                Seq::empty()
            },
            None => Seq::empty(),
        }
    }
}

} // verus!

verus! {

/// One toolbar tile at a screen position.
pub open spec fn ui_item_cmd(it: Item, x: int, y: int) -> DrawCmd {
    DrawCmd {
        sprite: crate::inventory::item_sprite(it),
        pos: Vec3 { x: x as i64, y: y as i64, z: 0 },
        flip_horizontal: false,
    }
}

/// The toolbar: the previous occupied slot's item, the active item, the next
/// occupied slot's item — each when present — and the highlight tile behind
/// the active slot, near the bottom center of the window.
pub open spec fn ui_cmds(inv: crate::inventory::Inventory, window: (u16, u16)) -> Seq<DrawCmd> {
    let cx = window.0 as int / 2;
    let y = window.1 - 40;
    let left = scan_from(inv.items@, (inv.active_item_idx + 7) % 8, 7, 7);
    let right = scan_from(inv.items@, (inv.active_item_idx + 1) % 8, 1, 7);
    (match left {
        Some(i) => match inv.items@[i as int] {
            Some(it) => seq![ui_item_cmd(it, cx - 58, y)],
            None => Seq::empty(),
        },
        None => Seq::empty(),
    }) + (match inv.items@[inv.active_item_idx as int] {
        Some(it) => seq![ui_item_cmd(it, cx - 16, y)],
        None => Seq::empty(),
    }) + (match right {
        Some(i) => match inv.items@[i as int] {
            Some(it) => seq![ui_item_cmd(it, cx + 28, y)],
            None => Seq::empty(),
        },
        None => Seq::empty(),
    }) + seq![
        DrawCmd {
            sprite: Sprite(13, 0, 1, 1),
            pos: Vec3 { x: (cx - 16) as i64, y: y as i64, z: 0 },
            flip_horizontal: false,
        },
    ]
}

/// Builds the toolbar draws.
fn build_ui(inv: &crate::inventory::Inventory, window: (u16, u16)) -> (r: Vec<DrawCmd>)
    requires
        crate::inventory::inv_wf(*inv),
    ensures
        r@ == ui_cmds(*inv, window),
{
    let cx: i64 = (window.0 / 2) as i64;
    let y: i64 = (window.1 as i64) - 40;
    let mut out: Vec<DrawCmd> = Vec::new();
    match inv.get_left() {
        Some(it) => {
            out.push(
                DrawCmd {
                    sprite: it.sprite(),
                    pos: Vec3 { x: cx - 58, y, z: 0 },
                    flip_horizontal: false,
                },
            );
        },
        None => {},
    }
    match inv.active_item() {
        Some(it) => {
            out.push(
                DrawCmd {
                    sprite: it.sprite(),
                    pos: Vec3 { x: cx - 16, y, z: 0 },
                    flip_horizontal: false,
                },
            );
        },
        None => {},
    }
    match inv.get_right() {
        Some(it) => {
            out.push(
                DrawCmd {
                    sprite: it.sprite(),
                    pos: Vec3 { x: cx + 28, y, z: 0 },
                    flip_horizontal: false,
                },
            );
        },
        None => {},
    }
    out.push(
        DrawCmd {
            sprite: Sprite::new(13, 0, 1, 1),
            pos: Vec3 { x: cx - 16, y, z: 0 },
            flip_horizontal: false,
        },
    );
    proof {
        assert(out@ =~= ui_cmds(*inv, window));
    }
    out
}

/// Render pass: computes the lighting pass and the toolbar, then walks the
/// entities once to emit floor, prop and depth-sorted world draws — stepping
/// each drawn sprite's animation — and once more to emit the proximity
/// indicators, stepping each shown indicator's sprite. The frame's draw
/// lists are exactly the per-entity folds over the world as it stood when
/// the pass began; the depth list is those commands ordered by depth key.
#[verifier::rlimit(100)]
pub fn render(w: &mut World, cam: (i32, i32)) -> (f: RenderFrame)
    requires
        world_wf(*old(w)),
        0 <= cam.0 <= 0x1_0000,
        0 <= cam.1 <= 0x1_0000,
    ensures
        world_wf(*final(w)),
        final(w).ctx == old(w).ctx,
        final(w).ents@.len() == old(w).ents@.len(),
        forall|i: int|
            0 <= i < old(w).ents@.len() ==> final(w).ents@[i] == match old(w).ents@[i] {
                Some(r) => Some(
                    rec_after_indicator(
                        rec_after_draw(r, old(w).ctx.animations),
                        old(w).ctx.animations,
                        old(w).ctx.player_pos,
                    ),
                ),
                None => None,
            },
        f.floors@ == draws_upto(
            old(w).ents@,
            old(w).ctx.animations,
            cam,
            0,
            false,
            old(w).ents@.len() as int,
        ),
        f.props@ == draws_upto(
            old(w).ents@,
            old(w).ctx.animations,
            cam,
            1,
            false,
            old(w).ents@.len() as int,
        ),
        depth_sorted(f.depth@),
        f.depth@.to_multiset() == draws_upto(
            old(w).ents@,
            old(w).ctx.animations,
            cam,
            2,
            true,
            old(w).ents@.len() as int,
        ).to_multiset(),
        f.indicators@ == indicators_upto(
            old(w).ents@,
            old(w).ctx.animations,
            cam,
            old(w).ctx.player_pos,
            old(w).ents@.len() as int,
        ),
        f.ui@ == ui_cmds(old(w).ctx.player_inventory, old(w).ctx.window_size),
        f.lights@.map_values(|p: LightPass| pass_view(p)) == passes_upto(
            old(w).ents@,
            cam,
            old(w).ents@.len() as int,
        ),
        f.ambient == old(w).ctx.ambient,
{
    let ghost ents0 = w.ents@;
    let ghost repo0 = w.ctx.animations;
    let lights = build_lightmap(&*w, cam);
    let ui = build_ui(&w.ctx.player_inventory, w.ctx.window_size);
    let ambient = w.ctx.ambient;
    let pp = w.ctx.player_pos;
    let mut floors: Vec<DrawCmd> = Vec::new();
    let mut props: Vec<DrawCmd> = Vec::new();
    let mut depth = DepthBuffer::new();
    proof {
        assert(depth.buffer@ =~= draws_upto(ents0, repo0, cam, 2, true, 0));
    }
    let n = w.ents.len();
    let mut i: usize = 0;
    while i < n
        invariant
            world_wf(*w),
            n == w.ents@.len() == ents0.len(),
            i <= n,
            w.ctx == old(w).ctx,
            repo0 == w.ctx.animations,
            0 <= cam.0 <= 0x1_0000,
            0 <= cam.1 <= 0x1_0000,
            forall|j: int| i <= j < n ==> w.ents@[j] == ents0[j],
            forall|j: int|
                0 <= j < i ==> w.ents@[j] == match ents0[j] {
                    Some(r) => Some(rec_after_draw(r, repo0)),
                    None => None,
                },
            floors@ == draws_upto(ents0, repo0, cam, 0, false, i as int),
            props@ == draws_upto(ents0, repo0, cam, 1, false, i as int),
            depth_sorted(depth.buffer@),
            depth.buffer@.to_multiset() == draws_upto(
                ents0,
                repo0,
                cam,
                2,
                true,
                i as int,
            ).to_multiset(),
        decreases n - i,
    {
        match w.ents[i] {
            Some(r) => {
                if r.pos.is_some() && r.sprite.is_some() {
                    let p = match r.pos {
                        Some(p) => p,
                        None => Pos { x: 0, y: 0 },
                    };
                    let s = match r.sprite {
                        Some(s) => s,
                        None => AnimatedSprite::new(
                            (0, 0, 0, 0),
                            0,
                            crate::components::AnimationId(0),
                            None,
                        ),
                    };
                    if s.anim.0 < w.ctx.animations.animations.len() {
                        let flen = w.ctx.animations.animations[s.anim.0].len();
                        if (s.frame as usize) < flen {
                            let tile = w.ctx.animations.animations[s.anim.0][s.frame as usize];
                            let class2 = r.floor.is_none() && r.prop.is_none();
                            let px: i64 = if class2 {
                                crate::math::round_px(p.x)
                            } else {
                                crate::math::div_i64(p.x, 1000)
                            };
                            let py: i64 = if class2 {
                                crate::math::round_px(p.y)
                            } else {
                                crate::math::div_i64(p.y, 1000)
                            };
                            let z: i64 = crate::math::round_px(p.y) + (match s.z_offset {
                                Some(zo) => zo as i64,
                                None => 0i64,
                            });
                            let cmd = DrawCmd {
                                sprite: tile,
                                pos: Vec3 {
                                    x: px + (s.x_offset as i64) + (cam.0 as i64),
                                    y: py + (s.y_offset as i64) + (cam.1 as i64),
                                    z,
                                },
                                flip_horizontal: s.flip_horizontal,
                            };
                            proof {
                                assert(drawable(r, repo0));
                                assert(cmd == cmd_of(r, repo0, cam, class2));
                            }
                            if r.floor.is_some() {
                                floors.push(cmd);
                            } else if r.prop.is_some() {
                                props.push(cmd);
                            } else {
                                let ghost before = depth.buffer@;
                                depth.push(cmd);
                                proof {
                                    vstd::seq_lib::to_multiset_build(
                                        draws_upto(ents0, repo0, cam, 2, true, i as int),
                                        cmd,
                                    );
                                }
                            }
                            let mut s2 = s;
                            proof {
                                assert(flen <= 0x1_0000);
                            }
                            advance_sprite(&mut s2, (flen - 1) as u32);
                            let mut rec = r;
                            rec.sprite = Some(s2);
                            proof {
                                assert(s2 == sprite_advanced(s, flen - 1));
                                assert(rec == rec_after_draw(r, repo0));
                            }
                            w.ents[i] = Some(rec);
                        }
                    }
                }
            },
            None => {},
        }
        i = i + 1;
        proof {
            assert(floors@ =~= draws_upto(ents0, repo0, cam, 0, false, i as int));
            assert(props@ =~= draws_upto(ents0, repo0, cam, 1, false, i as int));
            assert(draws_upto(ents0, repo0, cam, 2, true, i as int)
                =~= if ents0[i - 1] is Some && draw_class(ents0[i - 1]->Some_0) == 2 && drawable(
                ents0[i - 1]->Some_0,
                repo0,
            ) {
                draws_upto(ents0, repo0, cam, 2, true, i as int - 1).push(
                    cmd_of(ents0[i - 1]->Some_0, repo0, cam, true),
                )
            } else {
                draws_upto(ents0, repo0, cam, 2, true, i as int - 1)
            });
        }
    }
    let ghost ents1 = w.ents@;
    let mut indicators: Vec<DrawCmd> = Vec::new();
    i = 0;
    while i < n
        invariant
            world_wf(*w),
            n == w.ents@.len() == ents0.len() == ents1.len(),
            i <= n,
            w.ctx == old(w).ctx,
            repo0 == w.ctx.animations,
            pp == old(w).ctx.player_pos,
            0 <= cam.0 <= 0x1_0000,
            0 <= cam.1 <= 0x1_0000,
            forall|j: int|
                0 <= j < n ==> ents1[j] == match ents0[j] {
                    Some(r) => Some(rec_after_draw(r, repo0)),
                    None => None,
                },
            forall|j: int| i <= j < n ==> w.ents@[j] == ents1[j],
            forall|j: int|
                0 <= j < i ==> w.ents@[j] == match ents1[j] {
                    Some(r) => Some(rec_after_indicator(r, repo0, pp)),
                    None => None,
                },
            indicators@ == indicators_upto(ents0, repo0, cam, pp, i as int),
        decreases n - i,
    {
        match w.ents[i] {
            Some(r) => {
                if r.proximity.is_some() && r.pos.is_some() {
                    let p = match r.pos {
                        Some(p) => p,
                        None => Pos { x: 0, y: 0 },
                    };
                    let prox = match r.proximity {
                        Some(x) => x,
                        None => crate::components::ProximityIndicator {
                            range: 0,
                            sprite: AnimatedSprite::new(
                                (0, 0, 0, 0),
                                0,
                                crate::components::AnimationId(0),
                                None,
                            ),
                        },
                    };
                    let d = pp.distance(&p);
                    if d < prox.range {
                        let s = prox.sprite;
                        if s.anim.0 < w.ctx.animations.animations.len() {
                            let flen = w.ctx.animations.animations[s.anim.0].len();
                            if (s.frame as usize) < flen {
                                let tile = w.ctx.animations.animations[s.anim.0][s.frame as usize];
                                let cmd = DrawCmd {
                                    sprite: tile,
                                    pos: Vec3 {
                                        x: crate::math::div_i64(p.x, 1000) + (s.x_offset as i64) + (
                                        cam.0 as i64),
                                        y: crate::math::div_i64(p.y - 32_000, 1000) + (
                                        s.y_offset as i64) + (cam.1 as i64),
                                        z: 0,
                                    },
                                    flip_horizontal: s.flip_horizontal,
                                };
                                indicators.push(cmd);
                                let mut s2 = s;
                                proof {
                                    assert(flen <= 0x1_0000);
                                }
                                advance_sprite(&mut s2, (flen - 1) as u32);
                                let mut rec = r;
                                rec.proximity = Some(
                                    crate::components::ProximityIndicator { sprite: s2, ..prox },
                                );
                                proof {
                                    assert(indicator_shown(r, pp) && indicator_drawable(r, repo0));
                                    assert(s2 == sprite_advanced(s, flen - 1));
                                    assert(rec == rec_after_indicator(r, repo0, pp));
                                }
                                w.ents[i] = Some(rec);
                            }
                        }
                    }
                }
            },
            None => {},
        }
        i = i + 1;
        proof {
            assert(indicators@ =~= indicators_upto(ents0, repo0, cam, pp, i as int));
        }
    }
    proof {
        assert forall|i: int|
            0 <= i < ents0.len() implies w.ents@[i] == (match ents0[i] {
            Some(r) => Some(rec_after_indicator(rec_after_draw(r, repo0), repo0, pp)),
            None => None,
        }) by {
            assert(ents1[i] == (match ents0[i] {
                Some(r) => Some(rec_after_draw(r, repo0)),
                None => None,
            }));
        }
    }
    RenderFrame { floors, props, depth: depth.drain_sorted(), indicators, ui, lights, ambient }
}

} // verus!
