//! Resource pickups: the three resource kinds, the blink warning near the
//! end of a ground drop's life, the per-drone drop table, and the bounded
//! random roll of drop counts.

use vstd::prelude::*;

use crate::drone::DroneKind;
use crate::palette::Rgb;
use crate::rng::roll_between;

verus! {

/// How long a dropped resource lies on the ground before despawning.
pub const RESOURCE_LIFETIME_MS: u64 = 30000;

/// Within this much remaining life, a ground resource blinks.
pub const BLINK_THRESHOLD_MS: u64 = 10000;

/// Blink half-period: visibility toggles every interval of remaining life.
pub const BLINK_INTERVAL_MS: u64 = 200;

/// A collectible resource kind.
#[derive(Clone, Copy, PartialEq, Eq, Structural, Debug, Hash)]
pub enum ResourceType {
    ScrapMetal,
    Circuitry,
    DroneWeaponParts,
}

/// The glyph of a resource kind, as a character sequence.
pub open spec fn glyph_view_of(t: ResourceType) -> Seq<char> {
    match t {
        ResourceType::ScrapMetal => "#"@,
        ResourceType::Circuitry => "&"@,
        ResourceType::DroneWeaponParts => "%"@,
    }
}

/// The sprite tint of a resource kind.
pub open spec fn color_of(t: ResourceType) -> Rgb {
    match t {
        ResourceType::ScrapMetal => Rgb { r: 500u16, g: 500u16, b: 500u16 },
        ResourceType::Circuitry => Rgb { r: 0u16, g: 1000u16, b: 1000u16 },
        ResourceType::DroneWeaponParts => Rgb { r: 1000u16, g: 500u16, b: 0u16 },
    }
}

impl ResourceType {
    /// The display name of the resource.
    pub fn name(&self) -> (r: &'static str)
        ensures
            self is ScrapMetal ==> r@ == "Scrap Metal"@,
            self is Circuitry ==> r@ == "Circuitry"@,
            self is DroneWeaponParts ==> r@ == "Drone Weapon Parts"@,
    {
        match self {
            ResourceType::ScrapMetal => "Scrap Metal",
            ResourceType::Circuitry => "Circuitry",
            ResourceType::DroneWeaponParts => "Drone Weapon Parts",
        }
    }

    /// The one-character sprite glyph of the resource.
    pub fn glyph(&self) -> (r: &'static str)
        ensures
            r@ == glyph_view_of(*self),
    {
        match self {
            ResourceType::ScrapMetal => "#",
            ResourceType::Circuitry => "&",
            ResourceType::DroneWeaponParts => "%",
        }
    }

    /// The sprite tint of the resource.
    pub fn color(&self) -> (r: Rgb)
        ensures
            r == color_of(*self),
    {
        match self {
            ResourceType::ScrapMetal => Rgb { r: 500, g: 500, b: 500 },
            ResourceType::Circuitry => Rgb { r: 0, g: 1000, b: 1000 },
            ResourceType::DroneWeaponParts => Rgb { r: 1000, g: 500, b: 0 },
        }
    }
}

/// The blink parity as a function of remaining life: visible on even
/// multiples of the blink interval, hidden on odd ones. At 10.0 s remaining
/// the drop is visible (`10000 / 200 == 50`, even); at 9.9 s it is hidden
/// (`9900 / 200 == 49`, odd).
pub open spec fn blink_visible_spec(remaining_ms: u64) -> bool {
    ((remaining_ms as int) / (BLINK_INTERVAL_MS as int)) % 2 == 0
}

/// Computes the blink parity exactly.
pub fn blink_visible(remaining_ms: u64) -> (r: bool)
    ensures
        r == blink_visible_spec(remaining_ms),
{
    (remaining_ms / BLINK_INTERVAL_MS) % 2 == 0
}

/// One row of a drop table: how many of one resource a drone kind may drop,
/// bounds inclusive.
#[derive(Clone, Copy, PartialEq, Eq, Structural, Debug)]
pub struct ResourceRange {
    pub resource: ResourceType,
    pub min: u32,
    pub max: u32,
}

impl ResourceRange {
    pub open spec fn wf(self) -> bool {
        self.min <= self.max
    }
}

/// The drop ranges of one drone kind.
pub struct DropEntry {
    pub kind: DroneKind,
    pub drops: Vec<ResourceRange>,
}

impl DropEntry {
    pub open spec fn wf(self) -> bool {
        forall|i: int| 0 <= i < self.drops@.len() ==> (#[trigger] self.drops@[i]).wf()
    }
}

/// What each drone kind may drop on death. Consulted by the death pass;
/// the first entry for a kind wins.
pub struct DropTable {
    pub entries: Vec<DropEntry>,
}

/// Index of the first entry for `kind`, if any.
pub open spec fn entry_index_for(entries: Seq<DropEntry>, kind: DroneKind) -> int
    decreases entries.len(),
{
    if entries.len() == 0 {
        -1
    } else if entries[0].kind == kind {
        0
    } else {
        let rest = entry_index_for(entries.drop_first(), kind);
        if rest < 0 {
            -1
        } else {
            rest + 1
        }
    }
}

impl DropTable {
    pub open spec fn wf(self) -> bool {
        forall|i: int| 0 <= i < self.entries@.len() ==> (#[trigger] self.entries@[i]).wf()
    }

    /// The drop ranges for a drone kind: those of its first table entry.
    pub fn drops_for(&self, kind: DroneKind) -> (r: Option<&Vec<ResourceRange>>)
        ensures
            ({
                let idx = entry_index_for(self.entries@, kind);
                match r {
                    Some(v) => 0 <= idx < self.entries@.len() && v@ == self.entries@[idx].drops@
                        && self.entries@[idx].kind == kind,
                    None => idx < 0,
                }
            }),
    {
        let mut i: usize = 0;
        proof {
            assert(self.entries@.skip(0) == self.entries@);
        }
        while i < self.entries.len()
            invariant
                i <= self.entries@.len(),
                forall|j: int| 0 <= j < i ==> (#[trigger] self.entries@[j]).kind != kind,
                entry_index_for(self.entries@, kind) == entry_index_for(
                    self.entries@.skip(i as int),
                    kind,
                ) + if entry_index_for(self.entries@.skip(i as int), kind) >= 0 {
                    i as int
                } else {
                    0
                },
            decreases self.entries@.len() - i,
        {
            proof {
                assert(self.entries@.skip(i as int).drop_first() == self.entries@.skip(i + 1));
            }
            if self.entries[i].kind == kind {
                return Some(&self.entries[i].drops);
            }
            i = i + 1;
        }
        None
    }
}

/// The stock drop table: chasers drop scrap; shooters drop scrap and
/// sometimes weapon parts.
pub fn standard_drop_table() -> (t: DropTable)
    ensures
        t.entries@.len() == 2,
        t.entries@[0].kind == DroneKind::Chaser,
        t.entries@[0].drops@ =~= seq![
            ResourceRange { resource: ResourceType::ScrapMetal, min: 1u32, max: 2u32 },
        ],
        t.entries@[1].kind == DroneKind::Shooter,
        t.entries@[1].drops@ =~= seq![
            ResourceRange { resource: ResourceType::ScrapMetal, min: 1u32, max: 2u32 },
            ResourceRange { resource: ResourceType::DroneWeaponParts, min: 0u32, max: 1u32 },
        ],
        t.wf(),
{
    let chaser_drops: Vec<ResourceRange> = vec![
        ResourceRange { resource: ResourceType::ScrapMetal, min: 1, max: 2 },
    ];
    let shooter_drops: Vec<ResourceRange> = vec![
        ResourceRange { resource: ResourceType::ScrapMetal, min: 1, max: 2 },
        ResourceRange { resource: ResourceType::DroneWeaponParts, min: 0, max: 1 },
    ];
    let entries: Vec<DropEntry> = vec![
        DropEntry { kind: DroneKind::Chaser, drops: chaser_drops },
        DropEntry { kind: DroneKind::Shooter, drops: shooter_drops },
    ];
    DropTable { entries }
}

/// Rolls a drop count for every range of a table row. Each rolled count
/// lies within its row's inclusive bounds, whatever the random draws were.
pub fn roll_drop_counts(ranges: &Vec<ResourceRange>) -> (r: Vec<(ResourceType, u32)>)
    requires
        forall|i: int| 0 <= i < ranges@.len() ==> (#[trigger] ranges@[i]).wf(),
    ensures
        r@.len() == ranges@.len(),
        forall|i: int|
            0 <= i < r@.len() ==> (#[trigger] r@[i]).0 == ranges@[i].resource && ranges@[i].min
                <= r@[i].1 <= ranges@[i].max,
{
    let mut out: Vec<(ResourceType, u32)> = Vec::new();
    let mut i: usize = 0;
    while i < ranges.len()
        invariant
            i <= ranges@.len(),
            out@.len() == i,
            forall|j: int| 0 <= j < ranges@.len() ==> (#[trigger] ranges@[j]).wf(),
            forall|j: int|
                0 <= j < i ==> (#[trigger] out@[j]).0 == ranges@[j].resource && ranges@[j].min
                    <= out@[j].1 <= ranges@[j].max,
        decreases ranges@.len() - i,
    {
        let row = &ranges[i];
        let count: u32 = roll_between(row.min, row.max);
        out.push((row.resource, count));
        i = i + 1;
    }
    out
}

} // verus!
