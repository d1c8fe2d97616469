use vstd::prelude::*;
use crate::item::{FloatingItemType, spec_max_stack_size};

verus! {

/// Number of slots in a new inventory: ten on the hotbar and thirty in the bag.
pub const INVENTORY_SLOTS: usize = 40;

/// Number of quick-use references kept beside the slots.
pub const QUICK_SLOTS: usize = 10;

/// Stack size of a slot that has never held anything.
pub const DEFAULT_STACK: u32 = 64;

/// What the player has in hand.
#[derive(Clone, Copy, Debug, PartialEq, Eq, Structural)]
pub enum Tool {
    Hook,
    Builder,
    Axe,
    Hammer,
}

/// One stack of a single item type.
#[derive(Clone, Copy, Debug, PartialEq, Eq, Structural)]
pub struct InventorySlot {
    pub item_type: Option<FloatingItemType>,
    pub quantity: u32,
    pub max_stack: u32,
}

/// A slot that holds nothing.
pub open spec fn blank_slot() -> InventorySlot {
    InventorySlot { item_type: None, quantity: 0, max_stack: DEFAULT_STACK }
}

pub open spec fn min_u32(a: u32, b: u32) -> u32 {
    if a <= b { a } else { b }
}

impl InventorySlot {
    pub open spec fn empty_spec(self) -> bool {
        self.item_type.is_none() || self.quantity == 0
    }

    /// Whether the slot takes all of `amount` units of `t`.
    pub open spec fn takes(self, t: FloatingItemType, amount: int) -> bool {
        if self.empty_spec() {
            amount <= spec_max_stack_size(t)
        } else {
            self.item_type == Some(t) && self.quantity + amount <= self.max_stack
        }
    }

    /// Units of `t` held by the slot.
    pub open spec fn held(self, t: FloatingItemType) -> int {
        if self.item_type == Some(t) {
            self.quantity as int
        } else {
            0
        }
    }

    /// Free room of a non-empty slot.
    pub open spec fn room(self) -> u32 {
        if self.quantity <= self.max_stack {
            (self.max_stack - self.quantity) as u32
        } else {
            0
        }
    }

    /// The slot after offering it `amount` units of `t`, and the units it left over.
    pub open spec fn after_add(self, t: FloatingItemType, amount: u32) -> (InventorySlot, u32) {
        if self.empty_spec() {
            let q = min_u32(amount, spec_max_stack_size(t));
            (
                InventorySlot { item_type: Some(t), quantity: q, max_stack: spec_max_stack_size(t) },
                (amount - q) as u32,
            )
        } else if self.item_type == Some(t) {
            let added = min_u32(amount, self.room());
            (InventorySlot { quantity: (self.quantity + added) as u32, ..self }, (amount - added) as u32)
        } else {
            (self, amount)
        }
    }

    /// Whether offering `amount` units of `t` puts at least part of them in this slot.
    pub open spec fn accepts_some(self, t: FloatingItemType, amount: int) -> bool {
        self.takes(t, amount) || (self.empty_spec() && amount > 0)
    }

    /// Units held, whatever their type.
    pub open spec fn held_any(self) -> int {
        if self.item_type.is_some() {
            self.quantity as int
        } else {
            0
        }
    }

    /// The slot after taking out up to `amount` units, and the units taken.
    pub open spec fn after_remove(self, amount: u32) -> (InventorySlot, u32) {
        let removed = min_u32(amount, self.quantity);
        let q = (self.quantity - removed) as u32;
        (
            InventorySlot {
                item_type: if q == 0 { None } else { self.item_type },
                quantity: q,
                ..self
            },
            removed,
        )
    }

    pub fn new() -> (r: InventorySlot)
        ensures
            r == blank_slot(),
    {
        InventorySlot { item_type: None, quantity: 0, max_stack: DEFAULT_STACK }
    }

    pub fn new_with_item(item_type: FloatingItemType, quantity: u32) -> (r: InventorySlot)
        ensures
            r == (InventorySlot {
                item_type: Some(item_type),
                quantity,
                max_stack: spec_max_stack_size(item_type),
            }),
    {
        InventorySlot { item_type: Some(item_type), quantity, max_stack: item_type.max_stack_size() }
    }

    pub fn is_empty(&self) -> (r: bool)
        ensures
            r == self.empty_spec(),
    {
        self.item_type.is_none() || self.quantity == 0
    }

    /// Whether the slot takes all of `amount` units of `item_type`.
    pub fn can_add(&self, item_type: FloatingItemType, amount: u32) -> (r: bool)
        ensures
            r == self.takes(item_type, amount as int),
    {
        if self.is_empty() {
            return amount <= item_type.max_stack_size();
        }
        match self.item_type {
            Some(current) => current == item_type && amount <= self.max_stack && self.quantity
                <= self.max_stack - amount,
            None => false,
        }
    }

    /// Adds as many of `amount` units of `item_type` as fit; returns the units left over.
    pub fn add_items(&mut self, item_type: FloatingItemType, amount: u32) -> (left: u32)
        ensures
            (*final(self), left) == old(self).after_add(item_type, amount),
    {
        if self.is_empty() {
            self.item_type = Some(item_type);
            self.max_stack = item_type.max_stack_size();
            self.quantity = if amount <= self.max_stack { amount } else { self.max_stack };
            return amount - self.quantity;
        }
        match self.item_type {
            Some(current) => {
                if current == item_type {
                    let room = self.max_stack.saturating_sub(self.quantity);
                    let added = if amount <= room { amount } else { room };
                    self.quantity = self.quantity + added;
                    amount - added
                } else {
                    amount
                }
            },
            None => amount,
        }
    }

    /// Takes out up to `amount` units; returns how many were taken.
    pub fn remove_items(&mut self, amount: u32) -> (removed: u32)
        ensures
            (*final(self), removed) == old(self).after_remove(amount),
    {
        let removed = if amount <= self.quantity { amount } else { self.quantity };
        self.quantity = self.quantity - removed;
        if self.quantity == 0 {
            self.item_type = None;
        }
        removed
    }
}

/// Slot `b` is slot `a` after items went in: unchanged, filled from empty,
/// or holding more of the same type.
pub open spec fn slot_grows(a: InventorySlot, b: InventorySlot) -> bool {
    ||| a == b
    ||| a.empty_spec()
    ||| (!b.empty_spec() && b.item_type == a.item_type && b.quantity >= a.quantity && b.max_stack == a.max_stack)
}

/// Slots `b` are slots `a` after items went in.
pub open spec fn slots_grow(a: Seq<InventorySlot>, b: Seq<InventorySlot>) -> bool {
    &&& a.len() == b.len()
    &&& forall|i: int| 0 <= i < a.len() ==> slot_grows(#[trigger] a[i], b[i])
}

/// Units of `t` held over all of `s`.
pub open spec fn count_in(s: Seq<InventorySlot>, t: FloatingItemType) -> int
    decreases s.len(),
{
    if s.len() == 0 {
        0
    } else {
        count_in(s.drop_last(), t) + s.last().held(t)
    }
}

/// Units held over all of `s`.
pub open spec fn total_in(s: Seq<InventorySlot>) -> int
    decreases s.len(),
{
    if s.len() == 0 {
        0
    } else {
        total_in(s.drop_last()) + s.last().quantity
    }
}

proof fn lemma_count_update(s: Seq<InventorySlot>, i: int, x: InventorySlot, t: FloatingItemType)
    requires
        0 <= i < s.len(),
    ensures
        count_in(s.update(i, x), t) == count_in(s, t) - s[i].held(t) + x.held(t),
    decreases s.len(),
{
    let u = s.update(i, x);
    if i == s.len() - 1 {
        assert(u.drop_last() =~= s.drop_last());
    } else {
        assert(u.drop_last() =~= s.drop_last().update(i, x));
        lemma_count_update(s.drop_last(), i, x, t);
    }
}

proof fn lemma_count_nonneg(s: Seq<InventorySlot>, t: FloatingItemType)
    ensures
        count_in(s, t) >= 0,
    decreases s.len(),
{
    if s.len() > 0 {
        lemma_count_nonneg(s.drop_last(), t);
    }
}

/// Whatever a prefix holds, the whole holds at least as much.
proof fn lemma_count_rest(s: Seq<InventorySlot>, t: FloatingItemType)
    ensures
        forall|i: int| 0 <= i <= s.len() ==> #[trigger] count_in(s.take(i), t) <= count_in(s, t),
    decreases s.len(),
{
    if s.len() > 0 {
        lemma_count_rest(s.drop_last(), t);
        assert forall|i: int| 0 <= i <= s.len() implies #[trigger] count_in(s.take(i), t) <= count_in(s, t) by {
            if i < s.len() {
                assert(s.take(i) =~= s.drop_last().take(i));
            } else {
                assert(s.take(i) =~= s);
            }
        }
    }
}

proof fn lemma_count_prefix(s: Seq<InventorySlot>, i: int, t: FloatingItemType)
    requires
        0 <= i < s.len(),
    ensures
        count_in(s.take(i + 1), t) == count_in(s.take(i), t) + s[i].held(t),
{
    assert(s.take(i + 1).drop_last() =~= s.take(i));
}

proof fn lemma_total_prefix(s: Seq<InventorySlot>, i: int)
    requires
        0 <= i < s.len(),
    ensures
        total_in(s.take(i + 1)) == total_in(s.take(i)) + s[i].quantity,
{
    assert(s.take(i + 1).drop_last() =~= s.take(i));
}

/// The player's stacks of collected items.
pub struct Inventory {
    pub slots: Vec<InventorySlot>,
    pub max_slots: usize,
    pub selected_slot: Option<usize>,
    pub quick_slots: Vec<Option<usize>>,
}

/// Items going in twice is items going in.
pub proof fn lemma_slots_grow_trans(a: Seq<InventorySlot>, b: Seq<InventorySlot>, c: Seq<InventorySlot>)
    requires
        slots_grow(a, b),
        slots_grow(b, c),
    ensures
        slots_grow(a, c),
{
    assert forall|i: int| 0 <= i < a.len() implies slot_grows(#[trigger] a[i], c[i]) by {
        assert(slot_grows(a[i], b[i]));
        assert(slot_grows(b[i], c[i]));
    }
}

/// An inventory that cannot take one unit of `m` still cannot once more
/// items have gone in.
pub proof fn lemma_refusal_persists(a: Seq<InventorySlot>, b: Seq<InventorySlot>, m: FloatingItemType)
    requires
        slots_grow(a, b),
        forall|i: int| 0 <= i < a.len() ==> !(#[trigger] a[i].accepts_some(m, 1)),
    ensures
        forall|i: int| 0 <= i < b.len() ==> !(#[trigger] b[i].accepts_some(m, 1)),
{
    assert forall|i: int| 0 <= i < b.len() implies !(#[trigger] b[i].accepts_some(m, 1)) by {
        assert(!a[i].accepts_some(m, 1));
        assert(slot_grows(a[i], b[i]));
    }
}

impl Inventory {
    pub open spec fn count(&self, t: FloatingItemType) -> int {
        count_in(self.slots@, t)
    }

    /// Whether adding `amount` units of `t` puts at least part of them in.
    pub open spec fn accepts(&self, t: FloatingItemType, amount: u32) -> bool {
        exists|i: int| 0 <= i < self.slots@.len() && #[trigger] self.slots@[i].accepts_some(t, amount as int)
    }

    pub fn new() -> (r: Inventory)
        ensures
            r.slots@.len() == INVENTORY_SLOTS,
            forall|i: int| 0 <= i < INVENTORY_SLOTS ==> #[trigger] r.slots@[i] == blank_slot(),
            r.max_slots == INVENTORY_SLOTS,
            r.selected_slot.is_none(),
            r.quick_slots@ == Seq::new(QUICK_SLOTS as nat, |i: int| None::<usize>),
    {
        let mut slots: Vec<InventorySlot> = Vec::with_capacity(INVENTORY_SLOTS);
        let mut i: usize = 0;
        while i < INVENTORY_SLOTS
            invariant
                i <= INVENTORY_SLOTS,
                slots@.len() == i,
                forall|j: int| 0 <= j < i ==> #[trigger] slots@[j] == blank_slot(),
            decreases INVENTORY_SLOTS - i,
        {
            slots.push(InventorySlot::new());
            i += 1;
        }
        let mut quick: Vec<Option<usize>> = Vec::new();
        let mut k: usize = 0;
        while k < QUICK_SLOTS
            invariant
                k <= QUICK_SLOTS,
                quick@ == Seq::new(k as nat, |i: int| None::<usize>),
            decreases QUICK_SLOTS - k,
        {
            quick.push(None);
            k += 1;
            assert(quick@ =~= Seq::new(k as nat, |i: int| None::<usize>));
        }
        Inventory { slots, max_slots: INVENTORY_SLOTS, selected_slot: None, quick_slots: quick }
    }

    /// Adds `amount` units of `material`: first into the first slot that takes
    /// them all, else spread over empty slots. Returns whether any went in.
    pub fn add_material(&mut self, material: FloatingItemType, amount: u32) -> (r: bool)
        ensures
            final(self).slots@.len() == old(self).slots@.len(),
            final(self).max_slots == old(self).max_slots,
            final(self).selected_slot == old(self).selected_slot,
            final(self).quick_slots@ == old(self).quick_slots@,
            r == old(self).accepts(material, amount),
            (exists|i: int|
                0 <= i < old(self).slots@.len() && #[trigger] old(self).slots@[i].takes(
                    material,
                    amount as int,
                )) ==> final(self).count(material) == old(self).count(material) + amount,
            r && amount > 0 ==> old(self).count(material) < final(self).count(material),
            final(self).count(material) <= old(self).count(material) + amount,
            !r ==> final(self).slots@ == old(self).slots@,
            forall|t: FloatingItemType|
                t != material ==> #[trigger] final(self).count(t) == old(self).count(t),
            slots_grow(old(self).slots@, final(self).slots@),
    {
        let ghost start = self.slots@;
        let n = self.slots.len();
        let mut i: usize = 0;
        while i < n
            invariant
                n == start.len(),
                i <= n,
                self.slots@ == start,
                self.max_slots == old(self).max_slots,
                self.selected_slot == old(self).selected_slot,
                self.quick_slots@ == old(self).quick_slots@,
                start == old(self).slots@,
                forall|j: int| 0 <= j < i ==> !(#[trigger] start[j].takes(material, amount as int)),
            decreases n - i,
        {
            if self.slots[i].can_add(material, amount) {
                let mut slot = self.slots[i];
                let left = slot.add_items(material, amount);
                self.slots.set(i, slot);
                proof {
                    assert forall|t: FloatingItemType| #[trigger]
                        count_in(self.slots@, t) == count_in(start, t) - start[i as int].held(t)
                            + slot.held(t) by {
                        lemma_count_update(start, i as int, slot, t);
                    }
                    assert(start[i as int].accepts_some(material, amount as int));
                    assert forall|j: int| 0 <= j < n implies slot_grows(#[trigger] start[j], self.slots@[j]) by {
                        if j == i {
                            if !start[j].empty_spec() {
                                assert(start[j].item_type == Some(material));
                            }
                        }
                    }
                }
                if left == 0 {
                    return true;
                }
            }
            i += 1;
        }
        let mut remaining = amount;
        let mut k: usize = 0;
        while k < n
            invariant
                n == start.len(),
                k <= n,
                start == old(self).slots@,
                self.slots@.len() == n,
                self.max_slots == old(self).max_slots,
                self.selected_slot == old(self).selected_slot,
                self.quick_slots@ == old(self).quick_slots@,
                remaining <= amount,
                forall|j: int| 0 <= j < n ==> !(#[trigger] start[j].takes(material, amount as int)),
                forall|j: int| k <= j < n ==> #[trigger] self.slots@[j] == start[j],
                count_in(self.slots@, material) == count_in(start, material) + (amount - remaining),
                forall|t: FloatingItemType|
                    t != material ==> #[trigger] count_in(self.slots@, t) == count_in(start, t),
                remaining == amount ==> self.slots@ == start,
                remaining == amount ==> forall|j: int|
                    0 <= j < k ==> !(#[trigger] start[j].accepts_some(material, amount as int)),
                remaining < amount ==> exists|j: int|
                    0 <= j < n && #[trigger] start[j].accepts_some(material, amount as int),
                forall|j: int| 0 <= j < n ==> slot_grows(#[trigger] start[j], self.slots@[j]),
            decreases n - k,
        {
            if self.slots[k].is_empty() {
                let ghost before = self.slots@;
                let mut slot = self.slots[k];
                remaining = slot.add_items(material, remaining);
                self.slots.set(k, slot);
                proof {
                    assert forall|t: FloatingItemType| #[trigger]
                        count_in(self.slots@, t) == count_in(before, t) - before[k as int].held(t)
                            + slot.held(t) by {
                        lemma_count_update(before, k as int, slot, t);
                    }
                    assert(before[k as int] == start[k as int]);
                    assert(start[k as int].empty_spec());
                    assert forall|j: int| 0 <= j < n implies slot_grows(#[trigger] start[j], self.slots@[j]) by {
                        if j != k {
                            assert(self.slots@[j] == before[j]);
                        }
                    }
                    assert(!start[k as int].takes(material, amount as int));
                    assert(amount > 0);
                    assert(start[k as int].accepts_some(material, amount as int));
                }
                if remaining == 0 {
                    return true;
                }
            } else {
                proof {
                    assert(!start[k as int].accepts_some(material, amount as int));
                }
            }
            k += 1;
        }
        proof {
            if old(self).accepts(material, amount) {
                let w = choose|j: int| 0 <= j < n && #[trigger] start[j].accepts_some(material, amount as int);
                assert(!start[w].takes(material, amount as int));
            }
        }
        remaining < amount
    }

    /// Units of `material` held, saturating at `u32::MAX`.
    pub fn get_count(&self, material: FloatingItemType) -> (r: u32)
        ensures
            r == if self.count(material) <= u32::MAX { self.count(material) } else { u32::MAX as int },
    {
        let mut sum: u32 = 0;
        let mut i: usize = 0;
        proof { lemma_count_nonneg(self.slots@, material); }
        while i < self.slots.len()
            invariant
                i <= self.slots@.len(),
                sum == if count_in(self.slots@.take(i as int), material) <= u32::MAX {
                    count_in(self.slots@.take(i as int), material)
                } else {
                    u32::MAX as int
                },
                count_in(self.slots@.take(i as int), material) >= 0,
            decreases self.slots@.len() - i,
        {
            proof { lemma_count_prefix(self.slots@, i as int, material); }
            if self.slots[i].item_type == Some(material) {
                sum = sum.saturating_add(self.slots[i].quantity);
            }
            i += 1;
        }
        assert(self.slots@.take(i as int) =~= self.slots@);
        sum
    }

    /// Units held over all slots, saturating at `u32::MAX`.
    pub fn get_total_items(&self) -> (r: u32)
        ensures
            r == if total_in(self.slots@) <= u32::MAX { total_in(self.slots@) } else { u32::MAX as int },
    {
        let mut sum: u32 = 0;
        let mut i: usize = 0;
        while i < self.slots.len()
            invariant
                i <= self.slots@.len(),
                sum == if total_in(self.slots@.take(i as int)) <= u32::MAX {
                    total_in(self.slots@.take(i as int))
                } else {
                    u32::MAX as int
                },
                total_in(self.slots@.take(i as int)) >= 0,
            decreases self.slots@.len() - i,
        {
            proof { lemma_total_prefix(self.slots@, i as int); }
            sum = sum.saturating_add(self.slots[i].quantity);
            i += 1;
        }
        assert(self.slots@.take(i as int) =~= self.slots@);
        sum
    }

    /// Whether some slot is empty.
    pub fn has_space(&self) -> (r: bool)
        ensures
            r == exists|i: int| 0 <= i < self.slots@.len() && #[trigger] self.slots@[i].empty_spec(),
    {
        let mut i: usize = 0;
        while i < self.slots.len()
            invariant
                i <= self.slots@.len(),
                forall|j: int| 0 <= j < i ==> !(#[trigger] self.slots@[j].empty_spec()),
            decreases self.slots@.len() - i,
        {
            if self.slots[i].is_empty() {
                return true;
            }
            i += 1;
        }
        false
    }

    /// Takes out up to `amount` units of `material`, slot by slot; returns
    /// whether all of `amount` was taken.
    pub fn remove_material(&mut self, material: FloatingItemType, amount: u32) -> (r: bool)
        ensures
            final(self).slots@.len() == old(self).slots@.len(),
            final(self).max_slots == old(self).max_slots,
            final(self).selected_slot == old(self).selected_slot,
            final(self).quick_slots@ == old(self).quick_slots@,
            r == (old(self).count(material) >= amount),
            final(self).count(material) == old(self).count(material) - (if old(self).count(
                material,
            ) >= amount {
                amount as int
            } else {
                old(self).count(material)
            }),
            forall|t: FloatingItemType|
                t != material ==> #[trigger] final(self).count(t) == old(self).count(t),
    {
        let ghost start = self.slots@;
        let mut remaining = amount;
        let n = self.slots.len();
        let mut i: usize = 0;
        proof { lemma_count_nonneg(start, material); }
        while i < n
            invariant
                n == start.len(),
                i <= n,
                start == old(self).slots@,
                self.slots@.len() == n,
                self.max_slots == old(self).max_slots,
                self.selected_slot == old(self).selected_slot,
                self.quick_slots@ == old(self).quick_slots@,
                remaining <= amount,
                forall|j: int| i <= j < n ==> #[trigger] self.slots@[j] == start[j],
                count_in(self.slots@, material) == count_in(start, material) - (amount - remaining),
                remaining > 0 ==> count_in(start.take(i as int), material) == amount - remaining,
                count_in(start.take(i as int), material) >= amount - remaining,
                forall|t: FloatingItemType|
                    t != material ==> #[trigger] count_in(self.slots@, t) == count_in(start, t),
            decreases n - i,
        {
            proof { lemma_count_prefix(start, i as int, material); }
            let ghost before = self.slots@;
            if self.slots[i].item_type == Some(material) && remaining > 0 {
                let mut slot = self.slots[i];
                let removed = slot.remove_items(remaining);
                remaining = remaining - removed;
                self.slots.set(i, slot);
                proof {
                    assert forall|t: FloatingItemType| #[trigger]
                        count_in(self.slots@, t) == count_in(before, t) - before[i as int].held(t)
                            + slot.held(t) by {
                        lemma_count_update(before, i as int, slot, t);
                    }
                }
            }
            i += 1;
        }
        proof {
            assert(start.take(n as int) =~= start);
            lemma_count_rest(start, material);
        }
        remaining == 0
    }

    /// The slot at `index`, if there is one.
    pub fn get_slot(&self, index: usize) -> (r: Option<&InventorySlot>)
        ensures
            index < self.slots@.len() ==> r == Some(&self.slots@[index as int]),
            index >= self.slots@.len() ==> r.is_none(),
    {
        if index < self.slots.len() {
            Some(&self.slots[index])
        } else {
            None
        }
    }

    /// Exchanges two slots; false, with nothing changed, when either index is out of range.
    pub fn swap_slots(&mut self, slot1: usize, slot2: usize) -> (r: bool)
        ensures
            r == (slot1 < old(self).slots@.len() && slot2 < old(self).slots@.len()),
            r ==> final(self).slots@ == old(self).slots@.update(slot1 as int, old(self).slots@[slot2 as int]).update(slot2 as int, old(self).slots@[slot1 as int]),
            !r ==> final(self).slots@ == old(self).slots@,
            final(self).quick_slots@ == old(self).quick_slots@,
            final(self).max_slots == old(self).max_slots,
            final(self).selected_slot == old(self).selected_slot,
    {
        if slot1 < self.slots.len() && slot2 < self.slots.len() {
            let a = self.slots[slot1];
            let b = self.slots[slot2];
            self.slots.set(slot1, b);
            self.slots.set(slot2, a);
            return true;
        }
        false
    }

    /// Makes quick slot `quick_slot` refer to inventory slot `inventory_slot`.
    pub fn move_to_quick_slot(&mut self, inventory_slot: usize, quick_slot: usize) -> (r: bool)
        ensures
            r == (quick_slot < old(self).quick_slots@.len() && inventory_slot < old(self).slots@.len()),
            r ==> final(self).quick_slots@ == old(self).quick_slots@.update(quick_slot as int, Some(inventory_slot)),
            !r ==> final(self).quick_slots@ == old(self).quick_slots@,
            final(self).slots@ == old(self).slots@,
            final(self).max_slots == old(self).max_slots,
            final(self).selected_slot == old(self).selected_slot,
    {
        if quick_slot < self.quick_slots.len() && inventory_slot < self.slots.len() {
            self.quick_slots.set(quick_slot, Some(inventory_slot));
            return true;
        }
        false
    }

    /// Uses one unit from the slot that quick slot `quick_slot` refers to.
    pub fn use_quick_slot(&mut self, quick_slot: usize) -> (r: Option<(FloatingItemType, u32)>)
        ensures
            ({
                let q = old(self).quick_slots@;
                let s = old(self).slots@;
                if quick_slot < q.len() && q[quick_slot as int].is_some() && q[quick_slot as int].unwrap() < s.len()
                    && s[q[quick_slot as int].unwrap() as int].item_type.is_some()
                    && s[q[quick_slot as int].unwrap() as int].quantity > 0 {
                    let j = q[quick_slot as int].unwrap() as int;
                    &&& r == Some((s[j].item_type.unwrap(), 1u32))
                    &&& final(self).slots@ == s.update(j, s[j].after_remove(1).0)
                } else {
                    &&& r.is_none()
                    &&& forall|j: int| 0 <= j < s.len() ==> #[trigger] final(self).slots@[j].held_any() == s[j].held_any()
                    &&& final(self).slots@.len() == s.len()
                }
            }),
            final(self).quick_slots@ == old(self).quick_slots@,
            final(self).max_slots == old(self).max_slots,
            final(self).selected_slot == old(self).selected_slot,
    {
        if quick_slot < self.quick_slots.len() {
            if let Some(slot_index) = self.quick_slots[quick_slot] {
                if slot_index < self.slots.len() {
                    let mut slot = self.slots[slot_index];
                    if let Some(item_type) = slot.item_type {
                        let used = slot.remove_items(1);
                        self.slots.set(slot_index, slot);
                        if used > 0 {
                            return Some((item_type, used));
                        }
                    }
                }
            }
        }
        None
    }
}

} // verus!
