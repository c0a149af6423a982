//! Crafting: static recipes over resource stacks. A craft checks the
//! requirements, deducts them, then grants the output. The deduction
//! happens before the already-owned check on weapons, so a craft reported
//! as already owned has still spent its materials — kept as the recorded
//! behavior of the game, not mended silently.

use vstd::prelude::*;

use crate::inventory::{add_weapon, first_empty_slot, has_resources, remove_resource, Inventory};
use crate::resources::ResourceType;
use crate::weapon::WeaponType;

verus! {

/// What a recipe produces.
#[derive(Clone, Copy, PartialEq, Eq, Structural, Debug)]
pub enum CraftableItem {
    Weapon(WeaponType),
    Beacon,
}

/// A static recipe: a list of `(resource, required count)` rows and an
/// output item.
#[derive(Clone, PartialEq, Eq, Debug)]
pub struct Recipe {
    pub name: &'static str,
    pub ingredients: Vec<(ResourceType, u32)>,
    pub output: CraftableItem,
}

/// How one craft attempt ended.
#[derive(Clone, Copy, PartialEq, Eq, Structural, Debug)]
pub enum CraftResult {
    Success,
    NotEnoughResources,
    AlreadyOwned,
}

/// The stack count of `t` after the requirement rows are deducted one by
/// one, each clamping at zero.
pub open spec fn count_after_deductions(
    reqs: Seq<(ResourceType, u32)>,
    t: ResourceType,
    start: int,
) -> int
    decreases reqs.len(),
{
    if reqs.len() == 0 {
        start
    } else {
        let first = reqs[0];
        let next = if first.0 == t {
            if start >= first.1 {
                start - first.1
            } else {
                0
            }
        } else {
            start
        };
        count_after_deductions(reqs.drop_first(), t, next)
    }
}

/// Deducting one more row at the end applies that row to the fold so far.
proof fn lemma_count_after_deductions_snoc(
    reqs: Seq<(ResourceType, u32)>,
    e: (ResourceType, u32),
    t: ResourceType,
    start: int,
)
    ensures
        count_after_deductions(reqs.push(e), t, start) == ({
            let c = count_after_deductions(reqs, t, start);
            if e.0 == t {
                if c >= e.1 {
                    c - e.1
                } else {
                    0
                }
            } else {
                c
            }
        }),
    decreases reqs.len(),
{
    if reqs.len() == 0 {
        let s = reqs.push(e);
        assert(s.drop_first() =~= Seq::<(ResourceType, u32)>::empty());
        let next = if e.0 == t {
            if start >= e.1 {
                start - e.1
            } else {
                0int
            }
        } else {
            start
        };
        assert(count_after_deductions(s, t, start) == count_after_deductions(
            s.drop_first(),
            t,
            next,
        ));
        assert(count_after_deductions(Seq::<(ResourceType, u32)>::empty(), t, next) == next);
    } else {
        assert(reqs.push(e).drop_first() =~= reqs.drop_first().push(e));
        let first = reqs[0];
        let next = if first.0 == t {
            if start >= first.1 {
                start - first.1
            } else {
                0int
            }
        } else {
            start
        };
        lemma_count_after_deductions_snoc(reqs.drop_first(), e, t, next);
    }
}

/// The shotgun: one set of weapon parts and two scrap.
pub fn shotgun_recipe() -> (r: Recipe)
    ensures
        r.name@ == "Shotgun"@,
        r.ingredients@ =~= seq![
            (ResourceType::DroneWeaponParts, 1u32),
            (ResourceType::ScrapMetal, 2u32),
        ],
        r.output == CraftableItem::Weapon(WeaponType::Shotgun),
{
    let ingredients: Vec<(ResourceType, u32)> = vec![
        (ResourceType::DroneWeaponParts, 1),
        (ResourceType::ScrapMetal, 2),
    ];
    Recipe { name: "Shotgun", ingredients, output: CraftableItem::Weapon(WeaponType::Shotgun) }
}

/// The extraction beacon: five circuitry and three weapon parts.
pub fn beacon_recipe() -> (r: Recipe)
    ensures
        r.name@ == "Extraction Beacon"@,
        r.ingredients@ =~= seq![
            (ResourceType::Circuitry, 5u32),
            (ResourceType::DroneWeaponParts, 3u32),
        ],
        r.output == CraftableItem::Beacon,
{
    let ingredients: Vec<(ResourceType, u32)> = vec![
        (ResourceType::Circuitry, 5),
        (ResourceType::DroneWeaponParts, 3),
    ];
    Recipe { name: "Extraction Beacon", ingredients, output: CraftableItem::Beacon }
}

/// Every recipe the crafting panel offers, in panel order.
pub fn all_recipes() -> (r: Vec<Recipe>)
    ensures
        r@.len() == 2,
        r@[0].name@ == "Shotgun"@,
        r@[0].ingredients@ =~= seq![
            (ResourceType::DroneWeaponParts, 1u32),
            (ResourceType::ScrapMetal, 2u32),
        ],
        r@[0].output == CraftableItem::Weapon(WeaponType::Shotgun),
        r@[1].name@ == "Extraction Beacon"@,
        r@[1].ingredients@ =~= seq![
            (ResourceType::Circuitry, 5u32),
            (ResourceType::DroneWeaponParts, 3u32),
        ],
        r@[1].output == CraftableItem::Beacon,
{
    let mut out: Vec<Recipe> = Vec::new();
    out.push(shotgun_recipe());
    out.push(beacon_recipe());
    out
}

/// Attempts a craft. With insufficient resources nothing changes; with
/// sufficient resources every requirement row is deducted, and the output
/// is granted: a beacon always succeeds, a weapon lands in the first empty
/// slot, and a weapon already owned (or a full slot row) is reported as
/// already owned — after the deduction, as the game always did.
pub fn try_craft(inventory: &mut Inventory, recipe: &Recipe) -> (r: CraftResult)
    requires
        old(inventory).wf(),
    ensures
        final(inventory).wf(),
        final(inventory).active_weapon_slot == old(inventory).active_weapon_slot,
        !old(inventory).has_all(recipe.ingredients@) ==> r == CraftResult::NotEnoughResources
            && *final(inventory) == *old(inventory),
        old(inventory).has_all(recipe.ingredients@) ==> forall|t: ResourceType|
            final(inventory).res_count(t) == count_after_deductions(
                recipe.ingredients@,
                t,
                old(inventory).res_count(t),
            ),
        old(inventory).has_all(recipe.ingredients@) ==> match recipe.output {
            CraftableItem::Beacon => r == CraftResult::Success && final(inventory).weapon_slots@
                == old(inventory).weapon_slots@,
            CraftableItem::Weapon(w) => {
                if old(inventory).owns_weapon(w) || first_empty_slot(old(inventory).weapon_slots@)
                    < 0 {
                    r == CraftResult::AlreadyOwned && final(inventory).weapon_slots@ == old(inventory).weapon_slots@
                } else {
                    r == CraftResult::Success && final(inventory).weapon_slots@ == old(inventory).weapon_slots@.update(
                        first_empty_slot(old(inventory).weapon_slots@),
                        Some(w),
                    )
                }
            },
        },
{
    if !has_resources(inventory, &recipe.ingredients) {
        return CraftResult::NotEnoughResources;
    }
    let ghost inv0 = *inventory;
    let mut i: usize = 0;
    proof {
        assert(recipe.ingredients@.take(0) =~= Seq::<(ResourceType, u32)>::empty());
    }
    while i < recipe.ingredients.len()
        invariant
            inv0 == *old(inventory),
            i <= recipe.ingredients@.len(),
            inventory.wf(),
            inventory.weapon_slots@ == inv0.weapon_slots@,
            inventory.active_weapon_slot == inv0.active_weapon_slot,
            inv0.wf(),
            forall|t: ResourceType|
                inventory.res_count(t) == count_after_deductions(
                    recipe.ingredients@.take(i as int),
                    t,
                    inv0.res_count(t),
                ),
        decreases recipe.ingredients@.len() - i,
    {
        let (resource, count) = recipe.ingredients[i];
        remove_resource(inventory, resource, count);
        proof {
            assert(recipe.ingredients@.take(i + 1) =~= recipe.ingredients@.take(i as int).push(
                recipe.ingredients@[i as int],
            ));
            assert forall|t: ResourceType|
                inventory.res_count(t) == count_after_deductions(
                    recipe.ingredients@.take(i + 1),
                    t,
                    inv0.res_count(t),
                ) by {
                lemma_count_after_deductions_snoc(
                    recipe.ingredients@.take(i as int),
                    recipe.ingredients@[i as int],
                    t,
                    inv0.res_count(t),
                );
            }
        }
        i = i + 1;
    }
    let ghost inv1 = *inventory;
    proof {
        assert(recipe.ingredients@.take(i as int) =~= recipe.ingredients@);
        assert forall|t: ResourceType|
            inv1.res_count(t) == count_after_deductions(
                recipe.ingredients@,
                t,
                inv0.res_count(t),
            ) by {
            assert(inventory.res_count(t) == count_after_deductions(
                recipe.ingredients@.take(i as int),
                t,
                inv0.res_count(t),
            ));
        }
    }
    let result: CraftResult = match &recipe.output {
        CraftableItem::Weapon(weapon_type) => {
            match add_weapon(inventory, *weapon_type) {
                None => CraftResult::AlreadyOwned,
                Some(_) => CraftResult::Success,
            }
        },
        CraftableItem::Beacon => CraftResult::Success,
    };
    proof {
        assert forall|t: ResourceType|
            inventory.res_count(t) == count_after_deductions(
                recipe.ingredients@,
                t,
                inv0.res_count(t),
            ) by {
            assert(inventory.res_count(t) == inv1.res_count(t));
            assert(inv1.res_count(t) == count_after_deductions(
                recipe.ingredients@,
                t,
                inv0.res_count(t),
            ));
        }
    }
    result
}

} // verus!
