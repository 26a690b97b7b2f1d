//! The fixed eight-slot inventory of stateful items.
//!
//! Items were trait objects in the original design; the closed set of item
//! kinds is a tagged variant type here, dispatched by pattern match. Item
//! callbacks mutated the world through a shared handle; here every callback
//! returns the [`WorldEffect`] it asks for, and the caller applies it to the
//! store. Both redesigns keep the {name, sprite, on_tick, on_use, on_select,
//! on_deselect} contract.

use vstd::prelude::*;

use vstd::arithmetic::div_mod::{
    lemma_div_is_ordered, lemma_div_multiples_vanish, lemma_fundamental_div_mod,
    lemma_fundamental_div_mod_converse,
};

use crate::components::Sprite;
use crate::geom::Color;

verus! {

/// What an item callback asks the inventory to do with its slot.
#[derive(Clone, Copy, PartialEq, Eq, Structural, Debug)]
pub enum InventoryCmd {
    /// Leave the slot as it is.
    Nothing,
    /// Clear the slot immediately; the item is spent.
    Remove,
}

/// A world mutation requested by an item callback, applied by the caller.
#[derive(Clone, Copy, PartialEq, Eq, Structural, Debug)]
pub enum WorldEffect {
    /// Set the radius of the player entity's light.
    SetPlayerLightRadius { radius: u16 },
    /// Set the player entity's light outright.
    SetPlayerLight { color: Color, radius: u16, intensity: u16 },
    /// Spawn an inert glowing entity at the player's position.
    SpawnChemlight { radius: u16, color: Color },
}

/// An item with no behavior at all.
#[derive(Clone, Copy, PartialEq, Eq, Structural, Debug)]
pub struct PerfectlyGenericItem {}

/// A second inert item, distinguishable from the first by name and sprite.
#[derive(Clone, Copy, PartialEq, Eq, Structural, Debug)]
pub struct TestItem {}

/// A torch: once lit it burns down one tick at a time, keeps the player's
/// light radius proportional to what remains, and is consumed when spent.
#[derive(Clone, Copy, PartialEq, Eq, Structural, Debug)]
pub struct Torch {
    pub is_lit: bool,
    pub ticks_max: usize,
    pub ticks_left: usize,
}

impl Torch {
    pub fn new() -> (t: Torch)
        ensures
            t == (Torch { is_lit: false, ticks_max: 3600, ticks_left: 3600 }),
    {
        Torch { is_lit: false, ticks_max: 3600, ticks_left: 3600 }
    }
}

/// A chemlight: each use drops a glowing entity at the player's position;
/// the stick is consumed after its last use.
#[derive(Clone, Copy, PartialEq, Eq, Structural, Debug)]
pub struct Chemlight {
    pub uses_left: u16,
}

impl Chemlight {
    pub fn new() -> (c: Chemlight)
        ensures
            c == (Chemlight { uses_left: 5 }),
    {
        Chemlight { uses_left: 5 }
    }
}

/// One inventory item: the closed set of item kinds and their state.
#[derive(Clone, Copy, PartialEq, Eq, Structural, Debug)]
pub enum Item {
    PerfectlyGeneric(PerfectlyGenericItem),
    Test(TestItem),
    Torch(Torch),
    Chemlight(Chemlight),
}

/// Item state invariants: a torch never holds more ticks than its maximum
/// and a chemlight in a slot always has a use left.
pub open spec fn item_wf(it: Item) -> bool {
    match it {
        Item::Torch(t) => t.ticks_left <= t.ticks_max && 1 <= t.ticks_max <= 1_000_000,
        Item::Chemlight(c) => 1 <= c.uses_left,
        _ => true,
    }
}

/// The display name of an item.
pub open spec fn item_name(it: Item) -> Seq<char> {
    match it {
        Item::PerfectlyGeneric(_) => "perfectly_generic_item"@,
        Item::Test(_) => "test_item"@,
        Item::Torch(_) => "torch"@,
        Item::Chemlight(_) => "chemlight"@,
    }
}

/// The spritesheet tile shown for an item in the toolbar.
pub open spec fn item_sprite(it: Item) -> Sprite {
    match it {
        Item::PerfectlyGeneric(_) => Sprite(14, 0, 1, 1),
        Item::Test(_) => Sprite(10, 0, 1, 1),
        Item::Torch(_) => Sprite(10, 1, 1, 1),
        Item::Chemlight(_) => Sprite(12, 1, 1, 1),
    }
}

/// The radius the torch asks the player light to take while it burns.
pub open spec fn torch_radius(t: Torch) -> int {
    100 * t.ticks_left / (t.ticks_max as int) + 20
}

/// The command an item's per-tick callback returns.
pub open spec fn item_tick_cmd(it: Item, is_active: bool) -> InventoryCmd {
    match it {
        Item::Torch(t) => if t.ticks_left == 0 {
            InventoryCmd::Remove
        } else {
            InventoryCmd::Nothing
        },
        _ => InventoryCmd::Nothing,
    }
}

/// The world effect an item's per-tick callback requests.
pub open spec fn item_tick_effect(it: Item, is_active: bool) -> Option<WorldEffect> {
    match it {
        Item::Torch(t) => if t.ticks_left == 0 {
            Some(WorldEffect::SetPlayerLightRadius { radius: 0 })
        } else {
            Some(WorldEffect::SetPlayerLightRadius { radius: torch_radius(t) as u16 })
        },
        _ => None,
    }
}

/// The item state after its per-tick callback.
pub open spec fn item_after_tick(it: Item, is_active: bool) -> Item {
    match it {
        Item::Torch(t) => if t.ticks_left > 0 && t.is_lit {
            Item::Torch(Torch { ticks_left: (t.ticks_left - 1) as usize, ..t })
        } else {
            it
        },
        _ => it,
    }
}

/// The command an item's use callback returns.
pub open spec fn item_use_cmd(it: Item) -> InventoryCmd {
    match it {
        Item::Chemlight(c) => if c.uses_left == 1 {
            InventoryCmd::Remove
        } else {
            InventoryCmd::Nothing
        },
        _ => InventoryCmd::Nothing,
    }
}

/// The world effect an item's use callback requests.
pub open spec fn item_use_effect(it: Item) -> Option<WorldEffect> {
    match it {
        Item::Torch(_) => Some(
            WorldEffect::SetPlayerLight {
                color: Color { r: 255, g: 255, b: 100 },
                radius: 150,
                intensity: 1000,
            },
        ),
        Item::Chemlight(_) => Some(
            WorldEffect::SpawnChemlight { radius: 120, color: Color { r: 0, g: 255, b: 0 } },
        ),
        _ => None,
    }
}

/// The item state after its use callback.
pub open spec fn item_after_use(it: Item) -> Item {
    match it {
        Item::Torch(t) => Item::Torch(Torch { is_lit: true, ..t }),
        Item::Chemlight(c) => Item::Chemlight(Chemlight { uses_left: (c.uses_left - 1) as u16 }),
        _ => it,
    }
}

impl Item {
    /// The item's display name.
    pub fn name(&self) -> (r: &'static str)
        ensures
            r@ == item_name(*self),
    {
        match self {
            Item::PerfectlyGeneric(_) => "perfectly_generic_item",
            Item::Test(_) => "test_item",
            Item::Torch(_) => "torch",
            Item::Chemlight(_) => "chemlight",
        }
    }

    /// The spritesheet tile shown for the item in the toolbar.
    pub fn sprite(&self) -> (s: Sprite)
        ensures
            s == item_sprite(*self),
    {
        match self {
            Item::PerfectlyGeneric(_) => Sprite(14, 0, 1, 1),
            Item::Test(_) => Sprite(10, 0, 1, 1),
            Item::Torch(_) => Sprite(10, 1, 1, 1),
            Item::Chemlight(_) => Sprite(12, 1, 1, 1),
        }
    }

    /// Runs the item's per-tick callback.
    pub fn on_tick(&mut self, is_active: bool) -> (r: (InventoryCmd, Option<WorldEffect>))
        requires
            item_wf(*old(self)),
        ensures
            r.0 == item_tick_cmd(*old(self), is_active),
            r.1 == item_tick_effect(*old(self), is_active),
            *final(self) == item_after_tick(*old(self), is_active),
            item_wf(*final(self)),
    {
        match self {
            Item::Torch(t) => {
                if t.ticks_left == 0 {
                    (InventoryCmd::Remove, Some(WorldEffect::SetPlayerLightRadius { radius: 0 }))
                } else {
                    proof {
                        lemma_div_is_ordered(
                            100 * t.ticks_left as int,
                            100 * t.ticks_max as int,
                            t.ticks_max as int,
                        );
                        lemma_div_multiples_vanish(100, t.ticks_max as int);
                    }
                    let radius: u16 = ((100 * t.ticks_left) / t.ticks_max + 20) as u16;
                    if t.is_lit {
                        t.ticks_left = t.ticks_left - 1;
                    }
                    (InventoryCmd::Nothing, Some(WorldEffect::SetPlayerLightRadius { radius }))
                }
            },
            _ => (InventoryCmd::Nothing, None),
        }
    }

    /// Runs the item's use callback.
    pub fn on_use(&mut self) -> (r: (InventoryCmd, Option<WorldEffect>))
        requires
            item_wf(*old(self)),
        ensures
            r.0 == item_use_cmd(*old(self)),
            r.1 == item_use_effect(*old(self)),
            *final(self) == item_after_use(*old(self)),
            r.0 == InventoryCmd::Nothing ==> item_wf(*final(self)),
    {
        match self {
            Item::Torch(t) => {
                t.is_lit = true;
                (
                    InventoryCmd::Nothing,
                    Some(
                        WorldEffect::SetPlayerLight {
                            color: Color { r: 255, g: 255, b: 100 },
                            radius: 150,
                            intensity: 1000,
                        },
                    ),
                )
            },
            Item::Chemlight(c) => {
                c.uses_left = c.uses_left - 1;
                let cmd = if c.uses_left == 0 {
                    InventoryCmd::Remove
                } else {
                    InventoryCmd::Nothing
                };
                (
                    cmd,
                    Some(
                        WorldEffect::SpawnChemlight {
                            radius: 120,
                            color: Color { r: 0, g: 255, b: 0 },
                        },
                    ),
                )
            },
            _ => (InventoryCmd::Nothing, None),
        }
    }

    /// Runs the item's selection callback; no item kind reacts to selection.
    pub fn on_select(&mut self)
        ensures
            *final(self) == *old(self),
    {
    }

    /// Runs the item's deselection callback; no item kind reacts to it.
    pub fn on_deselect(&mut self)
        ensures
            *final(self) == *old(self),
    {
    }
}

} // verus!

verus! {

/// How many slots of a slot sequence are occupied.
pub open spec fn occ_count(s: Seq<Option<Item>>) -> int
    decreases s.len(),
{
    if s.len() == 0 {
        0
    } else {
        occ_count(s.drop_last()) + if s.last() is Some {
            1int
        } else {
            0int
        }
    }
}

/// The occupancy count never leaves `[0, len]`.
pub proof fn lemma_occ_count_le_len(s: Seq<Option<Item>>)
    ensures
        0 <= occ_count(s) <= s.len(),
    decreases s.len(),
{
    if s.len() > 0 {
        lemma_occ_count_le_len(s.drop_last());
    }
}

/// Replacing one slot changes the count by the difference in occupancy.
pub proof fn lemma_occ_count_update(s: Seq<Option<Item>>, i: int, v: Option<Item>)
    requires
        0 <= i < s.len(),
    ensures
        occ_count(s.update(i, v)) == occ_count(s) - (if s[i] is Some {
            1int
        } else {
            0int
        }) + (if v is Some {
            1int
        } else {
            0int
        }),
    decreases s.len(),
{
    let t = s.update(i, v);
    if i == s.len() - 1 {
        assert(t.drop_last() =~= s.drop_last());
    } else {
        lemma_occ_count_update(s.drop_last(), i, v);
        assert(t.drop_last() =~= s.drop_last().update(i, v));
        assert(t.last() == s.last());
    }
}

/// A sequence whose count equals its length has no free slot.
pub proof fn lemma_occ_count_full(s: Seq<Option<Item>>)
    requires
        occ_count(s) == s.len(),
    ensures
        forall|i: int| 0 <= i < s.len() ==> s[i] is Some,
    decreases s.len(),
{
    if s.len() > 0 {
        lemma_occ_count_le_len(s.drop_last());
        lemma_occ_count_full(s.drop_last());
        assert forall|i: int| 0 <= i < s.len() implies s[i] is Some by {
            if i < s.len() - 1 {
                assert(s.drop_last()[i] == s[i]);
            }
        }
    }
}

/// A sequence with every slot occupied counts its full length.
pub proof fn lemma_occ_count_all_some(s: Seq<Option<Item>>)
    requires
        forall|i: int| 0 <= i < s.len() ==> s[i] is Some,
    ensures
        occ_count(s) == s.len(),
    decreases s.len(),
{
    if s.len() > 0 {
        assert forall|i: int| 0 <= i < s.drop_last().len() implies s.drop_last()[i] is Some by {
            assert(s.drop_last()[i] == s[i]);
        }
        lemma_occ_count_all_some(s.drop_last());
    }
}

/// A sequence of empty slots counts zero.
pub proof fn lemma_occ_count_none(s: Seq<Option<Item>>)
    requires
        forall|i: int| 0 <= i < s.len() ==> s[i] is None,
    ensures
        occ_count(s) == 0,
    decreases s.len(),
{
    if s.len() > 0 {
        lemma_occ_count_none(s.drop_last());
    }
}

/// The first free slot at or after `k`, or the length when none is free.
pub open spec fn first_free_from(s: Seq<Option<Item>>, k: int) -> int
    decreases s.len() - k,
{
    if k < 0 || k >= s.len() {
        k
    } else if s[k] is None {
        k
    } else {
        first_free_from(s, k + 1)
    }
}

/// The slot where a circular walk by `step` (1 rightward, 7 leftward) comes
/// to rest: the first occupied slot reached within the probe budget, or
/// wherever the budget runs out.
pub open spec fn settle_from(s: Seq<Option<Item>>, idx: int, step: int, probes: int) -> int
    decreases probes,
{
    if probes <= 0 || s[idx] is Some {
        idx
    } else {
        settle_from(s, (idx + step) % 8, step, probes - 1)
    }
}

/// The first occupied slot on a circular walk by `step` from `idx`, if the
/// probe budget reaches one.
pub open spec fn scan_from(s: Seq<Option<Item>>, idx: int, step: int, probes: int) -> Option<u16>
    decreases probes,
{
    if probes <= 0 {
        None
    } else if s[idx] is Some {
        Some(idx as u16)
    } else {
        scan_from(s, (idx + step) % 8, step, probes - 1)
    }
}

/// The slot a `set_active_offset` walk starts at: the active slot moved by
/// `offset`, wrapped modulo 8.
pub open spec fn start_slot(active: int, offset: int) -> int {
    if offset >= 0 {
        (active + offset) % 8
    } else {
        (active + 8 - ((-offset) % 8)) % 8
    }
}

/// A slot after the per-tick callback: cleared when the callback asked for
/// removal, otherwise holding the ticked item.
pub open spec fn slot_after_tick(slot: Option<Item>, is_active: bool) -> Option<Item> {
    match slot {
        None => None,
        Some(it) => if item_tick_cmd(it, is_active) is Remove {
            None
        } else {
            Some(item_after_tick(it, is_active))
        },
    }
}

/// The effects a slot's per-tick callback requests.
pub open spec fn slot_tick_effects(slot: Option<Item>, is_active: bool) -> Seq<WorldEffect> {
    match slot {
        None => Seq::empty(),
        Some(it) => match item_tick_effect(it, is_active) {
            None => Seq::empty(),
            Some(e) => seq![e],
        },
    }
}

/// The effects of ticking the first `n` slots, in slot order.
pub open spec fn tick_effects_upto(s: Seq<Option<Item>>, active: int, n: int) -> Seq<WorldEffect>
    decreases n,
{
    if n <= 0 {
        Seq::empty()
    } else {
        tick_effects_upto(s, active, n - 1) + slot_tick_effects(s[n - 1], n - 1 == active)
    }
}

/// A fixed ring of eight item slots with one active slot. Occupancy may be
/// sparse; `num_items` tracks how many slots hold an item.
#[derive(Debug)]
pub struct Inventory {
    pub items: Vec<Option<Item>>,
    pub num_items: u16,
    pub active_item_idx: u16,
}

/// Inventory invariant: exactly eight slots, an in-range active slot, an
/// accurate item count, and well-formed items throughout.
pub open spec fn inv_wf(inv: Inventory) -> bool {
    &&& inv.items@.len() == 8
    &&& inv.active_item_idx < 8
    &&& inv.num_items == occ_count(inv.items@)
    &&& forall|i: int|
        0 <= i < 8 ==> (#[trigger] inv.items@[i] is Some ==> item_wf(inv.items@[i]->Some_0))
}

impl Inventory {
    /// An empty inventory with slot 0 active.
    pub fn new() -> (inv: Inventory)
        ensures
            inv_wf(inv),
            forall|i: int| 0 <= i < 8 ==> inv.items@[i] is None,
            inv.num_items == 0,
            inv.active_item_idx == 0,
    {
        let mut items: Vec<Option<Item>> = Vec::new();
        let mut i: usize = 0;
        while i < 8
            invariant
                items@.len() == i,
                i <= 8,
                forall|j: int| 0 <= j < i ==> items@[j] is None,
            decreases 8 - i,
        {
            items.push(None);
            i = i + 1;
        }
        proof {
            lemma_occ_count_none(items@);
        }
        Inventory { items, num_items: 0, active_item_idx: 0 }
    }

    /// Places the item into the first free slot, if one exists: succeeds
    /// exactly when fewer than eight items are held, and a failed insert
    /// changes nothing. The first item ever inserted is selected at once.
    pub fn insert(&mut self, item: Item) -> (r: bool)
        requires
            inv_wf(*old(self)),
            item_wf(item),
        ensures
            inv_wf(*final(self)),
            r <==> occ_count(old(self).items@) < 8,
            !r ==> *final(self) == *old(self),
            r ==> final(self).items@ == old(self).items@.update(
                first_free_from(old(self).items@, 0),
                Some(item),
            ),
            r ==> final(self).num_items == old(self).num_items + 1,
            final(self).active_item_idx == old(self).active_item_idx,
    {
        if self.num_items < 8 {
            // Selection is observable only through the item's state, and no
            // item kind reacts to it; the stored item is the given one.
            let mut sel_item = item;
            if self.num_items == 0 {
                sel_item.on_select();
            }
            let mut i: usize = 0;
            while i < 8
                invariant
                    *self == *old(self),
                    inv_wf(*self),
                    sel_item == item,
                    item_wf(item),
                    i <= 8,
                    forall|j: int| 0 <= j < i ==> self.items@[j] is Some,
                    first_free_from(self.items@, 0) == first_free_from(self.items@, i as int),
                    self.num_items < 8,
                decreases 8 - i,
            {
                if self.items[i].is_none() {
                    proof {
                        lemma_occ_count_update(self.items@, i as int, Some(sel_item));
                    }
                    self.items[i] = Some(sel_item);
                    self.num_items = self.num_items + 1;
                    return true;
                }
                i = i + 1;
            }
            proof {
                lemma_occ_count_all_some(self.items@);
            }
            false
        } else {
            proof {
                lemma_occ_count_le_len(self.items@);
            }
            false
        }
    }

    /// Whether any slot holds an item with the given name.
    pub fn has_item(&self, name: &str) -> (r: bool)
        requires
            inv_wf(*self),
        ensures
            r <==> exists|i: int|
                0 <= i < 8 && #[trigger] self.items@[i] is Some && item_name(
                    self.items@[i]->Some_0,
                ) == name@,
    {
        let mut i: usize = 0;
        while i < 8
            invariant
                inv_wf(*self),
                i <= 8,
                forall|j: int|
                    0 <= j < i ==> !(#[trigger] self.items@[j] is Some && item_name(
                        self.items@[j]->Some_0,
                    ) == name@),
            decreases 8 - i,
        {
            match &self.items[i] {
                Some(it) => {
                    if it.name().to_owned() == name.to_owned() {
                        return true;
                    }
                },
                None => {},
            }
            i = i + 1;
        }
        false
    }

    /// The item in the active slot, if that slot is occupied.
    pub fn active_item(&self) -> (r: Option<Item>)
        requires
            inv_wf(*self),
        ensures
            r == self.items@[self.active_item_idx as int],
    {
        self.items[self.active_item_idx as usize]
    }

    /// The first occupied slot rightward of the active one, probing the
    /// seven other slots.
    fn next_idx_right(&self) -> (r: Option<u16>)
        requires
            inv_wf(*self),
        ensures
            r == scan_from(self.items@, (self.active_item_idx + 1) % 8, 1, 7),
            r is Some ==> r->Some_0 < 8,
    {
        let mut idx: u16 = (self.active_item_idx + 1) % 8;
        let mut k: u16 = 0;
        while k < 7
            invariant
                inv_wf(*self),
                idx < 8,
                k <= 7,
                scan_from(self.items@, (self.active_item_idx + 1) % 8, 1, 7) == scan_from(
                    self.items@,
                    idx as int,
                    1,
                    7 - k,
                ),
            decreases 7 - k,
        {
            if self.items[idx as usize].is_some() {
                return Some(idx);
            }
            idx = (idx + 1) % 8;
            k = k + 1;
        }
        None
    }

    /// The first occupied slot leftward of the active one, probing the
    /// seven other slots. A leftward step is a rightward step by seven.
    fn next_idx_left(&self) -> (r: Option<u16>)
        requires
            inv_wf(*self),
        ensures
            r == scan_from(self.items@, (self.active_item_idx + 7) % 8, 7, 7),
            r is Some ==> r->Some_0 < 8,
    {
        let mut idx: u16 = (self.active_item_idx + 7) % 8;
        let mut k: u16 = 0;
        while k < 7
            invariant
                inv_wf(*self),
                idx < 8,
                k <= 7,
                scan_from(self.items@, (self.active_item_idx + 7) % 8, 7, 7) == scan_from(
                    self.items@,
                    idx as int,
                    7,
                    7 - k,
                ),
            decreases 7 - k,
        {
            if self.items[idx as usize].is_some() {
                return Some(idx);
            }
            idx = (idx + 7) % 8;
            k = k + 1;
        }
        None
    }

    /// Lookahead for the toolbar: the next occupied slot leftward of the
    /// active one, without changing any state.
    pub fn get_left(&self) -> (r: Option<Item>)
        requires
            inv_wf(*self),
        ensures
            ({
                let scan = scan_from(self.items@, (self.active_item_idx + 7) % 8, 7, 7);
                match scan {
                    None => r is None,
                    Some(i) => r == self.items@[i as int],
                }
            }),
    {
        if let Some(idx) = self.next_idx_left() {
            return self.items[idx as usize];
        }
        None
    }

    /// Lookahead for the toolbar: the next occupied slot rightward of the
    /// active one, without changing any state.
    pub fn get_right(&self) -> (r: Option<Item>)
        requires
            inv_wf(*self),
        ensures
            ({
                let scan = scan_from(self.items@, (self.active_item_idx + 1) % 8, 1, 7);
                match scan {
                    None => r is None,
                    Some(i) => r == self.items@[i as int],
                }
            }),
    {
        if let Some(idx) = self.next_idx_right() {
            return self.items[idx as usize];
        }
        None
    }

    /// Moves the active slot by `offset`, wrapping modulo 8 and walking past
    /// empty slots (up to eight probes, so an all-empty inventory settles
    /// back where it started). Deselects the old active item and selects the
    /// new one; no item kind reacts to either.
    pub fn set_active_offset(&mut self, offset: i16)
        requires
            inv_wf(*old(self)),
        ensures
            inv_wf(*final(self)),
            final(self).items@ == old(self).items@,
            final(self).num_items == old(self).num_items,
            offset == 0 ==> *final(self) == *old(self),
            offset != 0 ==> final(self).active_item_idx == settle_from(
                old(self).items@,
                start_slot(old(self).active_item_idx as int, offset as int),
                if offset > 0 { 1int } else { 7int },
                8,
            ),
    {
        if offset == 0 {
            return;
        }
        let a = self.active_item_idx as usize;
        match self.items[a] {
            Some(mut it) => {
                it.on_deselect();
                self.items[a] = Some(it);
                proof {
                    assert(self.items@ =~= old(self).items@);
                }
            },
            None => {},
        }
        let start: u16 = if offset > 0 {
            (((self.active_item_idx as u32) + (offset as u32)) % 8) as u16
        } else {
            let m: u32 = ((-(offset as i32)) as u32) % 8;
            (((self.active_item_idx as u32) + 8 - m) % 8) as u16
        };
        let step: u16 = if offset > 0 {
            1
        } else {
            7
        };
        let mut idx: u16 = start;
        let mut i: u16 = 0;
        while i < 8 && self.items[idx as usize].is_none()
            invariant
                inv_wf(*self),
                self.items@ == old(self).items@,
                idx < 8,
                i <= 8,
                1 <= step <= 7,
                settle_from(self.items@, start as int, step as int, 8) == settle_from(
                    self.items@,
                    idx as int,
                    step as int,
                    8 - i,
                ),
            decreases 8 - i,
        {
            i = i + 1;
            idx = (idx + step) % 8;
        }
        self.active_item_idx = idx;
        match self.items[idx as usize] {
            Some(mut it) => {
                it.on_select();
                self.items[idx as usize] = Some(it);
                proof {
                    assert(self.items@ =~= old(self).items@);
                }
            },
            None => {},
        }
    }

    /// Ticks every occupied slot in order, telling each item whether it is
    /// the active one; a slot whose item asks for removal is cleared at
    /// once. Returns the world effects the items requested, in slot order.
    pub fn tick(&mut self) -> (effects: Vec<WorldEffect>)
        requires
            inv_wf(*old(self)),
        ensures
            inv_wf(*final(self)),
            final(self).active_item_idx == old(self).active_item_idx,
            forall|i: int|
                0 <= i < 8 ==> final(self).items@[i] == slot_after_tick(
                    old(self).items@[i],
                    i == old(self).active_item_idx as int,
                ),
            effects@ == tick_effects_upto(
                old(self).items@,
                old(self).active_item_idx as int,
                8,
            ),
    {
        let mut effects: Vec<WorldEffect> = Vec::new();
        let mut i: usize = 0;
        while i < 8
            invariant
                i <= 8,
                inv_wf(*self),
                self.active_item_idx == old(self).active_item_idx,
                forall|j: int| i <= j < 8 ==> self.items@[j] == old(self).items@[j],
                forall|j: int|
                    0 <= j < i ==> self.items@[j] == slot_after_tick(
                        old(self).items@[j],
                        j == old(self).active_item_idx as int,
                    ),
                effects@ == tick_effects_upto(
                    old(self).items@,
                    old(self).active_item_idx as int,
                    i as int,
                ),
            decreases 8 - i,
        {
            let is_active = i == self.active_item_idx as usize;
            match self.items[i] {
                Some(it) => {
                    let mut it = it;
                    let (cmd, eff) = it.on_tick(is_active);
                    match eff {
                        Some(e) => effects.push(e),
                        None => {},
                    }
                    match cmd {
                        InventoryCmd::Remove => {
                            proof {
                                lemma_occ_count_update(self.items@, i as int, None);
                                lemma_occ_count_le_len(self.items@.update(i as int, None));
                            }
                            self.items[i] = None;
                            self.num_items = self.num_items - 1;
                        },
                        InventoryCmd::Nothing => {
                            proof {
                                lemma_occ_count_update(self.items@, i as int, Some(it));
                            }
                            self.items[i] = Some(it);
                        },
                    }
                },
                None => {},
            }
            i = i + 1;
            proof {
                assert(effects@ =~= tick_effects_upto(
                    old(self).items@,
                    old(self).active_item_idx as int,
                    i as int,
                ));
            }
        }
        effects
    }

    /// Uses the active item, if any; an item that reports itself spent is
    /// removed at once. Returns the world effects the item requested.
    pub fn do_use(&mut self) -> (effects: Vec<WorldEffect>)
        requires
            inv_wf(*old(self)),
        ensures
            inv_wf(*final(self)),
            final(self).active_item_idx == old(self).active_item_idx,
            ({
                let a = old(self).active_item_idx as int;
                match old(self).items@[a] {
                    None => *final(self) == *old(self) && effects@ == Seq::<WorldEffect>::empty(),
                    Some(it) => {
                        &&& final(self).items@ == old(self).items@.update(
                            a,
                            if item_use_cmd(it) is Remove {
                                None
                            } else {
                                Some(item_after_use(it))
                            },
                        )
                        &&& effects@ == match item_use_effect(it) {
                            None => Seq::<WorldEffect>::empty(),
                            Some(e) => seq![e],
                        }
                    },
                }
            }),
    {
        let a = self.active_item_idx as usize;
        let mut effects: Vec<WorldEffect> = Vec::new();
        match self.items[a] {
            Some(it) => {
                let mut it = it;
                let (cmd, eff) = it.on_use();
                match eff {
                    Some(e) => effects.push(e),
                    None => {},
                }
                match cmd {
                    InventoryCmd::Remove => {
                        proof {
                            lemma_occ_count_update(self.items@, a as int, None);
                            lemma_occ_count_le_len(self.items@.update(a as int, None));
                        }
                        self.items[a] = None;
                        self.num_items = self.num_items - 1;
                    },
                    InventoryCmd::Nothing => {
                        proof {
                            lemma_occ_count_update(self.items@, a as int, Some(it));
                        }
                        self.items[a] = Some(it);
                    },
                }
            },
            None => {},
        }
        effects
    }
}

} // verus!
