use topdown_core::collision::collide_pair;
use topdown_core::collision::fix_colliders;
use topdown_core::components::Light;
use topdown_core::geom::Color;
use topdown_core::lighting::build_lightmap;
use topdown_core::components::{Collider, Pos, CH_NAV};
use topdown_core::game::{spawn_player, spawn_wall, standard_ctx, tile_to_pos, update};
use topdown_core::inventory::{Chemlight, Inventory, Item, PerfectlyGenericItem, TestItem, Torch};
use topdown_core::math::{isqrt, round_px, Vec2};
use topdown_core::world::{Entity, EntityRecord, World};

#[test]
fn isqrt_exact_values() {
    assert_eq!(isqrt(0), 0);
    assert_eq!(isqrt(1), 1);
    assert_eq!(isqrt(2), 1);
    assert_eq!(isqrt(4), 2);
    assert_eq!(isqrt(999999), 999);
    assert_eq!(isqrt(1000000), 1000);
}

#[test]
fn round_px_halves_away_from_zero() {
    assert_eq!(round_px(1499), 1);
    assert_eq!(round_px(1500), 2);
    assert_eq!(round_px(-1499), -1);
    assert_eq!(round_px(-1500), -2);
    assert_eq!(round_px(0), 0);
}

#[test]
fn normalize_diagonal() {
    let mut v = Vec2::new(1000, 1000);
    v.normalize();
    // magnitude of (1000,1000) is floor(sqrt(2000000)) = 1414
    assert_eq!(v.x, 1000 * 1000 / 1414);
    assert_eq!(v.y, 1000 * 1000 / 1414);
}

/// Penetration resolution: a moving box overlapping a static box
/// by 2 pixels from the right is pushed out by 3 and flagged on its left.
#[test]
fn penetration_resolution_exact() {
    // static box at (0,0,32,32); moving 32x32 box with left edge at x=30
    let mut c1 = Collider::new((0, 0, 32, 32), CH_NAV, CH_NAV, None);
    c1.set_pos(30, 0);
    let mut c2 = Collider::new((0, 0, 32, 32), CH_NAV, CH_NAV, None);
    c2.set_pos(0, 0);
    let mut pos = Pos::new(30_000, 0);
    let hit = collide_pair(&mut c1, &mut pos, &c2, true);
    assert!(hit);
    assert!(c1.left);
    assert!(!c1.right && !c1.top && !c1.bottom);
    assert!(c1.is_colliding);
    // pushed right by penetration (2) + 1 pixels: new left edge at 33
    assert_eq!(pos.x, 33_000);
    assert_eq!(pos.y, 0);
}

/// Collision detection is symmetric; hitboxes and static bodies never move.
#[test]
fn detection_symmetric_resolution_asymmetric() {
    let mut c1 = Collider::new((0, 0, 32, 32), 1, 2, None);
    c1.set_pos(10, 0);
    let mut c2 = Collider::new((0, 0, 32, 32), 2, 1, None);
    c2.set_pos(0, 0);
    let mut p1 = Pos::new(10_000, 0);
    let mut p2 = Pos::new(0, 0);
    // both directions detect
    let hit12 = collide_pair(&mut c1, &mut p1, &c2, true);
    let hit21 = collide_pair(&mut c2, &mut p2, &c1, false);
    assert!(hit12);
    assert!(hit21);
    // only the movable side was corrected
    assert_ne!(p1.x, 10_000);
    assert_eq!(p2.x, 0);
    assert_eq!(p2.y, 0);
}

/// Inventory wraparound: items in slots 0 and 5 only, active 0; one step
/// right lands on 5, another wraps back to 0.
#[test]
fn inventory_wraparound() {
    let mut inv = Inventory::new();
    // Fill all 8 then remove: simplest route is chemlights, which remove
    // themselves after five uses; instead place items directly via insert
    // order: occupy 0..=5, then spend the chemlights in slots 1..=4.
    assert!(inv.insert(Item::Test(TestItem {})));
    for _ in 0..4 {
        let mut c = Chemlight::new();
        c.uses_left = 1;
        assert!(inv.insert(Item::Chemlight(c)));
    }
    assert!(inv.insert(Item::Torch(Torch::new())));
    // use items in slots 1..=4 (single-use chemlights) to empty them
    for slot in 1..5 {
        inv.set_active_offset(1);
        assert_eq!(inv.active_item_idx, slot);
        let _ = inv.do_use();
    }
    // only slots 0 and 5 are occupied now; step onto 5, then wrap to 0
    inv.set_active_offset(1);
    assert_eq!(inv.active_item_idx, 5);
    inv.set_active_offset(1);
    assert_eq!(inv.active_item_idx, 0);
    // the wraparound scenario proper: 0 -> 5 -> 0
    inv.set_active_offset(1);
    assert_eq!(inv.active_item_idx, 5);
    inv.set_active_offset(1);
    assert_eq!(inv.active_item_idx, 0);
}

/// Inventory full: the ninth insert fails and changes nothing.
#[test]
fn inventory_full_insert_rejected() {
    let mut inv = Inventory::new();
    for _ in 0..8 {
        assert!(inv.insert(Item::PerfectlyGeneric(PerfectlyGenericItem {})));
    }
    let before: Vec<Option<Item>> = inv.items.clone();
    assert!(!inv.insert(Item::Torch(Torch::new())));
    assert_eq!(inv.num_items, 8);
    for i in 0..8 {
        assert_eq!(inv.items[i], before[i]);
    }
}

/// Despawn deferral: an enqueued entity stays queryable until the flush and
/// is gone afterward; others survive.
#[test]
fn despawn_deferred_until_flush() {
    let ctx = standard_ctx((800, 800));
    let mut w = World::new(ctx);
    let mut rec = EntityRecord::empty();
    rec.pos = Some(Pos::new(1000, 1000));
    let a = w.spawn(rec);
    let b = w.spawn(EntityRecord::empty());
    w.enqueue_despawn(a);
    assert!(w.get(a).is_some(), "still queryable before the flush");
    w.flush_despawn_queue();
    assert!(w.get(a).is_none(), "gone after the flush");
    assert!(w.get(b).is_some(), "others keep their records");
    // re-enqueueing an already-dead entity is harmless
    w.enqueue_despawn(Entity { id: a.id });
    w.flush_despawn_queue();
    assert!(w.get(b).is_some());
}

/// End-to-end tick: a wall overlapping the player from the east
/// pushes the player west by penetration + 1 and flags the right side.
#[test]
fn end_to_end_tick_pushes_player_out() {
    let ctx = standard_ctx((800, 800));
    let mut w = World::new(ctx);
    let player = spawn_player(&mut w, Vec2::new(400_000, 400_000));
    // player nav box: offset (-13, 0), 26x16 => spans x in [387, 413).
    // wall nav box: offset (-16,-14), 32x30; center it so its left edge
    // overlaps the player's right edge by 5px: wall left edge = 408.
    let wall_center_x = 408 + 16;
    spawn_wall(&mut w, Pos::new(wall_center_x * 1000, 400_000));
    let before = match w.get(player) {
        Some(r) => r.pos.unwrap(),
        None => panic!("player missing"),
    };
    update(&mut w);
    let after = match w.get(player) {
        Some(r) => r,
        None => panic!("player missing"),
    };
    let pos = after.pos.unwrap();
    // penetration 413 - 408 = 5, push-out 6 pixels west
    assert_eq!(pos.x, before.x - 6_000);
    assert_eq!(pos.y, before.y);
    let nav = after.colliders.unwrap().nav.unwrap();
    assert!(nav.right, "blocked on the right for this tick");
    assert!(nav.is_colliding);
    assert!(w.ctx.despawn_queue.is_empty());
}

/// A zero-radius light and a zero-intensity light contribute identically:
/// nothing.
#[test]
fn empty_light_culling() {
    let ctx = standard_ctx((800, 800));
    let mut w = World::new(ctx);
    let mut r1 = EntityRecord::empty();
    r1.pos = Some(Pos::new(100_000, 100_000));
    r1.light = Some(Light { radius: 0, color: Color { r: 255, g: 0, b: 0 }, intensity: 1000 });
    w.spawn(r1);
    let with_zero_radius = build_lightmap(&w, (0, 0));
    assert_eq!(with_zero_radius.len(), 0);

    let ctx2 = standard_ctx((800, 800));
    let mut w2 = World::new(ctx2);
    let mut r2 = EntityRecord::empty();
    r2.pos = Some(Pos::new(100_000, 100_000));
    r2.light = Some(Light { radius: 80, color: Color { r: 255, g: 0, b: 0 }, intensity: 0 });
    w2.spawn(r2);
    let with_transparent = build_lightmap(&w2, (0, 0));
    assert_eq!(with_transparent.len(), 0);
}

/// A contributing light is culled against occluders and casts wedges from
/// walls inside its bounding square.
#[test]
fn light_casts_wedge_from_wall() {
    let ctx = standard_ctx((800, 800));
    let mut w = World::new(ctx);
    spawn_wall(&mut w, tile_to_pos(3, 3));
    fix_colliders(&mut w);
    let mut r = EntityRecord::empty();
    r.pos = Some(Pos::new(96_000, 140_000));
    r.light = Some(Light { radius: 120, color: Color { r: 200, g: 100, b: 50 }, intensity: 500 });
    w.spawn(r);
    let passes = build_lightmap(&w, (0, 0));
    assert_eq!(passes.len(), 1);
    assert_eq!(passes[0].radius, 120);
    // color scaled by intensity 500/1000
    assert_eq!(passes[0].color_mod.r, 100);
    assert_eq!(passes[0].color_mod.g, 50);
    assert_eq!(passes[0].color_mod.b, 25);
    assert_eq!(passes[0].quads.len(), 1, "one wall in range casts one wedge");
}

/// The torch's tick keeps the player light radius proportional to the fuel
/// left, plus its floor of 20.
#[test]
fn torch_radius_formula() {
    let mut t = Torch::new();
    t.ticks_left = 1800; // half burnt
    t.is_lit = true;
    let mut it = Item::Torch(t);
    let (_, eff) = it.on_tick(true);
    match eff {
        Some(topdown_core::inventory::WorldEffect::SetPlayerLightRadius { radius }) => {
            assert_eq!(radius as u32, 100u32 * 1800 / 3600 + 20);
        }
        _ => panic!("torch tick must adjust the player light"),
    }
    match it {
        Item::Torch(t2) => assert_eq!(t2.ticks_left, 1799, "a lit torch burns down"),
        _ => unreachable!(),
    }
}
