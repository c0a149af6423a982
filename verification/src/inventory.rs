//! The player's inventory: a stack count per resource kind, a fixed row of
//! weapon slots, and the active slot. Counts saturate rather than under- or
//! overflow.

use vstd::prelude::*;

use crate::resources::ResourceType;
use crate::weapon::WeaponType;

verus! {

/// Number of weapon slots an inventory has.
pub const WEAPON_SLOTS: usize = 3;

/// Resource stacks and weapon slots. The resource mapping is a count per
/// kind; insertion order does not exist in the model.
#[derive(Clone, PartialEq, Eq, Debug)]
pub struct Inventory {
    pub scrap_metal: u32,
    pub circuitry: u32,
    pub drone_weapon_parts: u32,
    pub weapon_slots: Vec<Option<WeaponType>>,
    pub active_weapon_slot: usize,
}

/// Index of the first empty weapon slot, or `-1` if none is empty.
pub open spec fn first_empty_slot(s: Seq<Option<WeaponType>>) -> int
    decreases s.len(),
{
    if s.len() == 0 {
        -1
    } else if s[0] is None {
        0
    } else {
        let rest = first_empty_slot(s.drop_first());
        if rest < 0 {
            -1
        } else {
            rest + 1
        }
    }
}

impl Inventory {
    pub open spec fn wf(self) -> bool {
        self.weapon_slots@.len() == WEAPON_SLOTS && self.active_weapon_slot < WEAPON_SLOTS
    }

    /// The stack count of one resource kind.
    pub open spec fn res_count(self, t: ResourceType) -> int {
        match t {
            ResourceType::ScrapMetal => self.scrap_metal as int,
            ResourceType::Circuitry => self.circuitry as int,
            ResourceType::DroneWeaponParts => self.drone_weapon_parts as int,
        }
    }

    /// Whether some slot holds the given weapon.
    pub open spec fn owns_weapon(self, w: WeaponType) -> bool {
        exists|i: int| 0 <= i < self.weapon_slots@.len() && self.weapon_slots@[i] == Some(w)
    }

    /// Whether every requirement row is met by the current stacks.
    pub open spec fn has_all(self, reqs: Seq<(ResourceType, u32)>) -> bool {
        forall|i: int| 0 <= i < reqs.len() ==> self.res_count((#[trigger] reqs[i]).0) >= reqs[i].1
    }
}

impl Default for Inventory {
    /// A fresh inventory: no resources, the starter pistol in slot 0, slot 0
    /// active.
    fn default() -> (inv: Inventory)
        ensures
            inv.scrap_metal == 0,
            inv.circuitry == 0,
            inv.drone_weapon_parts == 0,
            inv.weapon_slots@ =~= seq![Some(WeaponType::Pistol), None, None],
            inv.active_weapon_slot == 0,
            inv.wf(),
    {
        let weapon_slots: Vec<Option<WeaponType>> = vec![Some(WeaponType::Pistol), None, None];
        Inventory {
            scrap_metal: 0,
            circuitry: 0,
            drone_weapon_parts: 0,
            weapon_slots,
            active_weapon_slot: 0,
        }
    }
}

/// `a + b`, saturating at the stack limit.
pub open spec fn sat_add(a: u32, b: u32) -> u32 {
    if a + b <= u32::MAX {
        (a + b) as u32
    } else {
        u32::MAX
    }
}

/// The inventory after `count` units of a resource are added.
pub open spec fn with_added(inv: Inventory, resource: ResourceType, count: u32) -> Inventory {
    match resource {
        ResourceType::ScrapMetal => Inventory {
            scrap_metal: sat_add(inv.scrap_metal, count),
            ..inv
        },
        ResourceType::Circuitry => Inventory { circuitry: sat_add(inv.circuitry, count), ..inv },
        ResourceType::DroneWeaponParts => Inventory {
            drone_weapon_parts: sat_add(inv.drone_weapon_parts, count),
            ..inv
        },
    }
}

/// Adds `count` units of a resource, saturating at the stack limit.
pub fn add_resource(inventory: &mut Inventory, resource: ResourceType, count: u32)
    ensures
        *final(inventory) == with_added(*old(inventory), resource, count),
        final(inventory).res_count(resource) == if old(inventory).res_count(resource) + count
            <= u32::MAX {
            old(inventory).res_count(resource) + count
        } else {
            u32::MAX as int
        },
        forall|t: ResourceType|
            t != resource ==> final(inventory).res_count(t) == old(inventory).res_count(t),
        final(inventory).weapon_slots@ == old(inventory).weapon_slots@,
        final(inventory).active_weapon_slot == old(inventory).active_weapon_slot,
        old(inventory).wf() ==> final(inventory).wf(),
{
    match resource {
        ResourceType::ScrapMetal => {
            inventory.scrap_metal = saturating_add_u32(inventory.scrap_metal, count);
        },
        ResourceType::Circuitry => {
            inventory.circuitry = saturating_add_u32(inventory.circuitry, count);
        },
        ResourceType::DroneWeaponParts => {
            inventory.drone_weapon_parts = saturating_add_u32(inventory.drone_weapon_parts, count);
        },
    }
}

fn saturating_add_u32(a: u32, b: u32) -> (r: u32)
    ensures
        r == if a + b <= u32::MAX {
            a + b
        } else {
            u32::MAX as int
        },
{
    if a <= u32::MAX - b {
        a + b
    } else {
        u32::MAX
    }
}

/// Removes up to `count` units of a resource, clamping at zero.
pub fn remove_resource(inventory: &mut Inventory, resource: ResourceType, count: u32)
    ensures
        final(inventory).res_count(resource) == if old(inventory).res_count(resource) >= count {
            old(inventory).res_count(resource) - count
        } else {
            0
        },
        forall|t: ResourceType|
            t != resource ==> final(inventory).res_count(t) == old(inventory).res_count(t),
        final(inventory).weapon_slots@ == old(inventory).weapon_slots@,
        final(inventory).active_weapon_slot == old(inventory).active_weapon_slot,
        old(inventory).wf() ==> final(inventory).wf(),
{
    match resource {
        ResourceType::ScrapMetal => {
            inventory.scrap_metal = saturating_sub_u32(inventory.scrap_metal, count);
        },
        ResourceType::Circuitry => {
            inventory.circuitry = saturating_sub_u32(inventory.circuitry, count);
        },
        ResourceType::DroneWeaponParts => {
            inventory.drone_weapon_parts = saturating_sub_u32(inventory.drone_weapon_parts, count);
        },
    }
}

fn saturating_sub_u32(a: u32, b: u32) -> (r: u32)
    ensures
        r == if a >= b {
            a - b
        } else {
            0
        },
{
    if a >= b {
        a - b
    } else {
        0
    }
}

/// Whether the inventory meets every `(resource, required count)` row.
pub fn has_resources(inventory: &Inventory, requirements: &Vec<(ResourceType, u32)>) -> (r: bool)
    ensures
        r == inventory.has_all(requirements@),
{
    let mut i: usize = 0;
    while i < requirements.len()
        invariant
            i <= requirements@.len(),
            forall|j: int|
                0 <= j < i ==> inventory.res_count((#[trigger] requirements@[j]).0)
                    >= requirements@[j].1,
        decreases requirements@.len() - i,
    {
        let (resource, required) = requirements[i];
        let have: u32 = resource_count(inventory, resource);
        if have < required {
            return false;
        }
        i = i + 1;
    }
    true
}

/// The current stack count of one resource kind.
pub fn resource_count(inventory: &Inventory, resource: ResourceType) -> (r: u32)
    ensures
        r == inventory.res_count(resource),
{
    match resource {
        ResourceType::ScrapMetal => inventory.scrap_metal,
        ResourceType::Circuitry => inventory.circuitry,
        ResourceType::DroneWeaponParts => inventory.drone_weapon_parts,
    }
}

/// Puts a weapon into the first empty slot and says which one; refuses a
/// duplicate weapon or a full row with `None`.
pub fn add_weapon(inventory: &mut Inventory, weapon: WeaponType) -> (r: Option<usize>)
    requires
        old(inventory).wf(),
    ensures
        final(inventory).wf(),
        final(inventory).scrap_metal == old(inventory).scrap_metal,
        final(inventory).circuitry == old(inventory).circuitry,
        final(inventory).drone_weapon_parts == old(inventory).drone_weapon_parts,
        final(inventory).active_weapon_slot == old(inventory).active_weapon_slot,
        old(inventory).owns_weapon(weapon) ==> r is None && final(inventory).weapon_slots@ == old(inventory).weapon_slots@,
        !old(inventory).owns_weapon(weapon) && first_empty_slot(old(inventory).weapon_slots@) < 0
            ==> r is None && final(inventory).weapon_slots@ == old(inventory).weapon_slots@,
        !old(inventory).owns_weapon(weapon) && first_empty_slot(old(inventory).weapon_slots@) >= 0
            ==> ({
            let slot = first_empty_slot(old(inventory).weapon_slots@);
            r == Some(slot as usize) && final(inventory).weapon_slots@ == old(inventory).weapon_slots@.update(slot, Some(weapon))
        }),
{
    let ghost inv0 = *inventory;
    let ghost slots0 = inventory.weapon_slots@;
    let mut i: usize = 0;
    while i < inventory.weapon_slots.len()
        invariant
            inv0 == *old(inventory),
            *inventory == inv0,
            slots0 == inv0.weapon_slots@,
            inv0.wf(),
            i <= slots0.len(),
            forall|j: int| 0 <= j < i ==> slots0[j] != Some(weapon),
        decreases slots0.len() - i,
    {
        let dup: bool = match inventory.weapon_slots[i] {
            Some(w) => w == weapon,
            None => false,
        };
        if dup {
            return None;
        }
        i = i + 1;
    }
    let mut k: usize = 0;
    proof {
        assert(slots0.skip(0) == slots0);
    }
    while k < inventory.weapon_slots.len()
        invariant
            inv0 == *old(inventory),
            *inventory == inv0,
            slots0 == inv0.weapon_slots@,
            inv0.wf(),
            forall|j: int| 0 <= j < slots0.len() ==> slots0[j] != Some(weapon),
            k <= slots0.len(),
            forall|j: int| 0 <= j < k ==> slots0[j] is Some,
            first_empty_slot(slots0) == first_empty_slot(slots0.skip(k as int))
                + if first_empty_slot(slots0.skip(k as int)) >= 0 {
                k as int
            } else {
                0
            },
        decreases slots0.len() - k,
    {
        proof {
            assert(slots0.skip(k as int).drop_first() == slots0.skip(k + 1));
        }
        let empty: bool = match inventory.weapon_slots[k] {
            Some(_) => false,
            None => true,
        };
        if empty {
            inventory.weapon_slots.set(k, Some(weapon));
            return Some(k);
        }
        k = k + 1;
    }
    None
}

/// The weapon in a slot, if the slot exists and is filled.
pub fn weapon_at_slot(inventory: &Inventory, slot: usize) -> (r: Option<WeaponType>)
    ensures
        r == if slot < inventory.weapon_slots@.len() {
            inventory.weapon_slots@[slot as int]
        } else {
            None::<WeaponType>
        },
{
    if slot < inventory.weapon_slots.len() {
        inventory.weapon_slots[slot]
    } else {
        None
    }
}

/// The weapon in the active slot, if any.
pub fn active_weapon(inventory: &Inventory) -> (r: Option<WeaponType>)
    ensures
        r == if inventory.active_weapon_slot < inventory.weapon_slots@.len() {
            inventory.weapon_slots@[inventory.active_weapon_slot as int]
        } else {
            None::<WeaponType>
        },
{
    weapon_at_slot(inventory, inventory.active_weapon_slot)
}

} // verus!
