//! The gameplay scenario: the slot layout of its 65,536 entities, the
//! canonical 256-frame trace of lookups and structural changes, and the
//! checksums that every engine adapter folds its final state into.

use vstd::prelude::*;
use vstd::wrapping::u64_specs;
use vstd::wrapping::usize_specs;

use super::components::Cooldown;
use super::components::Lifetime;
use super::components::OwnerSlot;
use super::components::TargetSlot;

verus! {

pub const GAMEPLAY_ENTITY_COUNT: usize = 65_536;
pub const GAMEPLAY_FRAME_COUNT: usize = 256;

pub const GAMEPLAY_MOVER_START: usize = 0;
pub const GAMEPLAY_MOVER_COUNT: usize = 20_480;
pub const GAMEPLAY_COMBAT_START: usize = GAMEPLAY_MOVER_START + GAMEPLAY_MOVER_COUNT;
pub const GAMEPLAY_COMBAT_COUNT: usize = 16_384;
pub const GAMEPLAY_ENEMY_COUNT: usize = GAMEPLAY_COMBAT_COUNT / 2;
pub const GAMEPLAY_AI_START: usize = GAMEPLAY_COMBAT_START + GAMEPLAY_COMBAT_COUNT;
pub const GAMEPLAY_AI_COUNT: usize = 8_192;
pub const GAMEPLAY_PROJECTILE_START: usize = GAMEPLAY_AI_START + GAMEPLAY_AI_COUNT;
pub const GAMEPLAY_PROJECTILE_COUNT: usize = 8_192;
pub const GAMEPLAY_STATIC_START: usize = GAMEPLAY_PROJECTILE_START + GAMEPLAY_PROJECTILE_COUNT;
pub const GAMEPLAY_STATIC_COUNT: usize = 8_192;
pub const GAMEPLAY_EFFECT_START: usize = GAMEPLAY_STATIC_START + GAMEPLAY_STATIC_COUNT;
pub const GAMEPLAY_EFFECT_COUNT: usize = 4_096;

pub const GAMEPLAY_MOVING_COUNT: usize = GAMEPLAY_MOVER_COUNT + GAMEPLAY_COMBAT_COUNT
    + GAMEPLAY_AI_COUNT + GAMEPLAY_PROJECTILE_COUNT;
pub const GAMEPLAY_HEALTH_COUNT: usize = GAMEPLAY_COMBAT_COUNT + GAMEPLAY_AI_COUNT;
pub const GAMEPLAY_LIFETIME_COUNT: usize = GAMEPLAY_PROJECTILE_COUNT + GAMEPLAY_EFFECT_COUNT;

pub const GAMEPLAY_AI_LOOKUPS_PER_FRAME: usize = 2_048;
pub const GAMEPLAY_STATUS_CHANGES_PER_FRAME: usize = 128;
pub const GAMEPLAY_PROJECTILE_RECYCLES_PER_FRAME: usize = 128;
pub const GAMEPLAY_STATUS_DURATION_FRAMES: usize = 8;
pub const GAMEPLAY_PROJECTILE_LIFETIME_FRAMES: usize = 64;
pub const GAMEPLAY_STUNNED_COUNT: usize = GAMEPLAY_STATUS_CHANGES_PER_FRAME
    * GAMEPLAY_STATUS_DURATION_FRAMES;

pub const GAMEPLAY_MASK_POSITION: u16 = 1;
pub const GAMEPLAY_MASK_VELOCITY: u16 = 2;
pub const GAMEPLAY_MASK_HEALTH: u16 = 4;
pub const GAMEPLAY_MASK_DAMAGE: u16 = 8;
pub const GAMEPLAY_MASK_REGEN: u16 = 16;
pub const GAMEPLAY_MASK_ENEMY: u16 = 32;
pub const GAMEPLAY_MASK_ALLY: u16 = 64;
pub const GAMEPLAY_MASK_LIFETIME: u16 = 128;
pub const GAMEPLAY_MASK_TARGET: u16 = 256;
pub const GAMEPLAY_MASK_COOLDOWN: u16 = 512;
pub const GAMEPLAY_MASK_OWNER: u16 = 1024;
pub const GAMEPLAY_MASK_STUNNED: u16 = 2048;
pub const GAMEPLAY_MASK_TAG_A: u16 = 4096;
pub const GAMEPLAY_MASK_TAG_B: u16 = 8192;

/// Two low-cardinality tags split each semantic layout into this many archetypes.
pub const GAMEPLAY_VARIANT_COUNT: usize = 4;
/// The combat population is stunned and released in this many rotating cohorts.
pub const GAMEPLAY_STATUS_COHORT_COUNT: usize = GAMEPLAY_STATUS_DURATION_FRAMES * 2;
/// The AI population acts in this many rotating cohorts.
pub const GAMEPLAY_AI_COHORT_COUNT: usize = GAMEPLAY_AI_COUNT / GAMEPLAY_AI_LOOKUPS_PER_FRAME;

/// The frames at which adapters compare their state against the reference.
pub fn gameplay_contract_checkpoints() -> (r: [usize; 10])
    ensures
        r@ == seq![0usize, 1, 7, 8, 15, 16, 63, 64, 127, 255],
{
    let r: [usize; 10] = [0, 1, 7, 8, 15, 16, 63, 64, 127, 255];
    assert(r@ =~= seq![0usize, 1, 7, 8, 15, 16, 63, 64, 127, 255]);
    r
}

/// The semantic role of a gameplay slot.
#[derive(Clone, Copy, Debug, PartialEq, Eq, Structural)]
pub enum GameplayKind {
    Mover,
    Enemy,
    Ally,
    Ai,
    Projectile,
    Static,
    Effect,
}

/// The layout of one logical slot.
#[derive(Clone, Copy, Debug, PartialEq, Eq, Structural)]
pub struct GameplaySlotSpec {
    pub slot: usize,
    pub kind: GameplayKind,
    /// Two low-cardinality tags turn the seven semantic layouts into 32+
    /// stable archetypes without changing the systems that match them.
    pub variant: u8,
}

/// The role of `slot`: consecutive ranges of movers, enemies, allies, AI
/// entities, projectiles, static entities and effects.
pub open spec fn slot_kind(slot: int) -> GameplayKind {
    if slot < GAMEPLAY_COMBAT_START {
        GameplayKind::Mover
    } else if slot < GAMEPLAY_COMBAT_START + GAMEPLAY_ENEMY_COUNT {
        GameplayKind::Enemy
    } else if slot < GAMEPLAY_AI_START {
        GameplayKind::Ally
    } else if slot < GAMEPLAY_PROJECTILE_START {
        GameplayKind::Ai
    } else if slot < GAMEPLAY_STATIC_START {
        GameplayKind::Projectile
    } else if slot < GAMEPLAY_EFFECT_START {
        GameplayKind::Static
    } else {
        GameplayKind::Effect
    }
}

/// The layout of `slot`, which must lie inside the population.
pub fn gameplay_slot_spec(slot: usize) -> (r: GameplaySlotSpec)
    requires
        slot < GAMEPLAY_ENTITY_COUNT,
    ensures
        r.slot == slot,
        r.kind == slot_kind(slot as int),
        r.variant == slot % GAMEPLAY_VARIANT_COUNT,
{
    let kind = if slot < GAMEPLAY_COMBAT_START {
        GameplayKind::Mover
    } else if slot < GAMEPLAY_COMBAT_START + GAMEPLAY_ENEMY_COUNT {
        GameplayKind::Enemy
    } else if slot < GAMEPLAY_AI_START {
        GameplayKind::Ally
    } else if slot < GAMEPLAY_PROJECTILE_START {
        GameplayKind::Ai
    } else if slot < GAMEPLAY_STATIC_START {
        GameplayKind::Projectile
    } else if slot < GAMEPLAY_EFFECT_START {
        GameplayKind::Static
    } else {
        GameplayKind::Effect
    };
    GameplaySlotSpec { slot, kind, variant: (slot % GAMEPLAY_VARIANT_COUNT) as u8 }
}

/// The target of an AI slot: a linear-congruential step over the slot,
/// reduced into the slots below the projectiles.
pub open spec fn ai_target_slot(ai_slot: usize) -> usize {
    (usize_specs::wrapping_add(usize_specs::wrapping_mul(ai_slot, 1_103_515_245), 12_345)
        % GAMEPLAY_PROJECTILE_START) as usize
}

/// The slot whose position an AI slot looks up. Targets stay outside the
/// projectile range, so recycling projectiles never invalidates a lookup.
pub fn gameplay_ai_target_slot(ai_slot: usize) -> (r: usize)
    ensures
        r == ai_target_slot(ai_slot),
        r < GAMEPLAY_PROJECTILE_START,
{
    let targetable_count = GAMEPLAY_PROJECTILE_START;
    ai_slot.wrapping_mul(1_103_515_245).wrapping_add(12_345) % targetable_count
}

/// The components of a gameplay entity: which float components it carries
/// (their values are constants of its kind: velocity, health, damage,
/// regeneration), its marker components, and the values of its integer
/// components.
#[derive(Clone, Copy, Debug, PartialEq, Eq)]
pub struct GameplayLayout {
    pub velocity: bool,
    pub health: bool,
    pub damage: bool,
    pub regen: bool,
    pub enemy: bool,
    pub ally: bool,
    pub lifetime: Option<Lifetime>,
    pub target: Option<TargetSlot>,
    pub cooldown: Option<Cooldown>,
    pub owner: Option<OwnerSlot>,
    pub stunned: bool,
}

/// The components of the entity in `slot`, stunned or not: movers move;
/// enemies and allies move, have health, and deal damage or regenerate;
/// AI entities move, have health, a target and a cooldown; projectiles
/// move, deal damage, live 64 frames and remember the combatant that fired
/// them; static entities have nothing but a position; effects live 256
/// frames.
pub open spec fn layout_of(slot: int, stunned: bool) -> GameplayLayout {
    match slot_kind(slot) {
        GameplayKind::Mover => GameplayLayout {
            velocity: true,
            health: false,
            damage: false,
            regen: false,
            enemy: false,
            ally: false,
            lifetime: None,
            target: None,
            cooldown: None,
            owner: None,
            stunned,
        },
        GameplayKind::Enemy => GameplayLayout {
            velocity: true,
            health: true,
            damage: true,
            regen: false,
            enemy: true,
            ally: false,
            lifetime: None,
            target: None,
            cooldown: None,
            owner: None,
            stunned,
        },
        GameplayKind::Ally => GameplayLayout {
            velocity: true,
            health: true,
            damage: false,
            regen: true,
            enemy: false,
            ally: true,
            lifetime: None,
            target: None,
            cooldown: None,
            owner: None,
            stunned,
        },
        GameplayKind::Ai => GameplayLayout {
            velocity: true,
            health: true,
            damage: false,
            regen: false,
            enemy: false,
            ally: false,
            lifetime: None,
            target: Some(TargetSlot(ai_target_slot(slot as usize) as u32)),
            cooldown: Some(Cooldown(((slot - GAMEPLAY_AI_START) % 32) as u32)),
            owner: None,
            stunned,
        },
        GameplayKind::Projectile => GameplayLayout {
            velocity: true,
            health: false,
            damage: true,
            regen: false,
            enemy: false,
            ally: false,
            lifetime: Some(Lifetime(GAMEPLAY_PROJECTILE_LIFETIME_FRAMES as u32)),
            target: None,
            cooldown: None,
            owner: Some(
                OwnerSlot(
                    (GAMEPLAY_COMBAT_START + (slot - GAMEPLAY_PROJECTILE_START)
                        % GAMEPLAY_COMBAT_COUNT as int) as u32,
                ),
            ),
            stunned,
        },
        GameplayKind::Static => GameplayLayout {
            velocity: false,
            health: false,
            damage: false,
            regen: false,
            enemy: false,
            ally: false,
            lifetime: None,
            target: None,
            cooldown: None,
            owner: None,
            stunned,
        },
        GameplayKind::Effect => GameplayLayout {
            velocity: false,
            health: false,
            damage: false,
            regen: false,
            enemy: false,
            ally: false,
            lifetime: Some(Lifetime(256)),
            target: None,
            cooldown: None,
            owner: None,
            stunned,
        },
    }
}

/// The components of the entity in `slot`, which must lie inside the
/// population.
pub fn gameplay_entity_layout(slot: usize, stunned: bool) -> (r: GameplayLayout)
    requires
        slot < GAMEPLAY_ENTITY_COUNT,
    ensures
        r == layout_of(slot as int, stunned),
{
    let spec = gameplay_slot_spec(slot);
    match spec.kind {
        GameplayKind::Mover => GameplayLayout {
            velocity: true,
            health: false,
            damage: false,
            regen: false,
            enemy: false,
            ally: false,
            lifetime: None,
            target: None,
            cooldown: None,
            owner: None,
            stunned,
        },
        GameplayKind::Enemy => GameplayLayout {
            velocity: true,
            health: true,
            damage: true,
            regen: false,
            enemy: true,
            ally: false,
            lifetime: None,
            target: None,
            cooldown: None,
            owner: None,
            stunned,
        },
        GameplayKind::Ally => GameplayLayout {
            velocity: true,
            health: true,
            damage: false,
            regen: true,
            enemy: false,
            ally: true,
            lifetime: None,
            target: None,
            cooldown: None,
            owner: None,
            stunned,
        },
        GameplayKind::Ai => GameplayLayout {
            velocity: true,
            health: true,
            damage: false,
            regen: false,
            enemy: false,
            ally: false,
            lifetime: None,
            target: Some(TargetSlot(gameplay_ai_target_slot(slot) as u32)),
            cooldown: Some(Cooldown(((slot - GAMEPLAY_AI_START) % 32) as u32)),
            owner: None,
            stunned,
        },
        GameplayKind::Projectile => GameplayLayout {
            velocity: true,
            health: false,
            damage: true,
            regen: false,
            enemy: false,
            ally: false,
            lifetime: Some(Lifetime(GAMEPLAY_PROJECTILE_LIFETIME_FRAMES as u32)),
            target: None,
            cooldown: None,
            owner: Some(
                OwnerSlot(
                    (GAMEPLAY_COMBAT_START + (slot - GAMEPLAY_PROJECTILE_START)
                        % GAMEPLAY_COMBAT_COUNT) as u32,
                ),
            ),
            stunned,
        },
        GameplayKind::Static => GameplayLayout {
            velocity: false,
            health: false,
            damage: false,
            regen: false,
            enemy: false,
            ally: false,
            lifetime: None,
            target: None,
            cooldown: None,
            owner: None,
            stunned,
        },
        GameplayKind::Effect => GameplayLayout {
            velocity: false,
            health: false,
            damage: false,
            regen: false,
            enemy: false,
            ally: false,
            lifetime: Some(Lifetime(256)),
            target: None,
            cooldown: None,
            owner: None,
            stunned,
        },
    }
}

/// `bit` where `present` holds, else no bit.
pub open spec fn bit_if(present: bool, bit: u16) -> u16 {
    if present {
        bit
    } else {
        0
    }
}

/// The component mask of an entity with components `l` whose slot has tag
/// variant `variant`: one bit per component, the position always set, tag
/// A on variants 1 and 3, tag B on variants 2 and 3.
pub open spec fn layout_mask(l: GameplayLayout, variant: int) -> u16 {
    GAMEPLAY_MASK_POSITION | bit_if(l.velocity, GAMEPLAY_MASK_VELOCITY) | bit_if(
        l.health,
        GAMEPLAY_MASK_HEALTH,
    ) | bit_if(l.damage, GAMEPLAY_MASK_DAMAGE) | bit_if(l.regen, GAMEPLAY_MASK_REGEN) | bit_if(
        l.enemy,
        GAMEPLAY_MASK_ENEMY,
    ) | bit_if(l.ally, GAMEPLAY_MASK_ALLY) | bit_if(l.lifetime is Some, GAMEPLAY_MASK_LIFETIME)
        | bit_if(l.target is Some, GAMEPLAY_MASK_TARGET) | bit_if(
        l.cooldown is Some,
        GAMEPLAY_MASK_COOLDOWN,
    ) | bit_if(l.owner is Some, GAMEPLAY_MASK_OWNER) | bit_if(l.stunned, GAMEPLAY_MASK_STUNNED)
        | bit_if(variant == 1 || variant == 3, GAMEPLAY_MASK_TAG_A) | bit_if(
        variant == 2 || variant == 3,
        GAMEPLAY_MASK_TAG_B,
    )
}

/// The component mask of the entity in `slot` with components `layout`.
pub fn gameplay_component_mask(layout: &GameplayLayout, slot: usize) -> (r: u16)
    ensures
        r == layout_mask(*layout, (slot % GAMEPLAY_VARIANT_COUNT) as int),
{
    let variant = slot % GAMEPLAY_VARIANT_COUNT;
    let mut mask = GAMEPLAY_MASK_POSITION;
    mask = mask | if layout.velocity {
        GAMEPLAY_MASK_VELOCITY
    } else {
        0
    };
    mask = mask | if layout.health {
        GAMEPLAY_MASK_HEALTH
    } else {
        0
    };
    mask = mask | if layout.damage {
        GAMEPLAY_MASK_DAMAGE
    } else {
        0
    };
    mask = mask | if layout.regen {
        GAMEPLAY_MASK_REGEN
    } else {
        0
    };
    mask = mask | if layout.enemy {
        GAMEPLAY_MASK_ENEMY
    } else {
        0
    };
    mask = mask | if layout.ally {
        GAMEPLAY_MASK_ALLY
    } else {
        0
    };
    mask = mask | if layout.lifetime.is_some() {
        GAMEPLAY_MASK_LIFETIME
    } else {
        0
    };
    mask = mask | if layout.target.is_some() {
        GAMEPLAY_MASK_TARGET
    } else {
        0
    };
    mask = mask | if layout.cooldown.is_some() {
        GAMEPLAY_MASK_COOLDOWN
    } else {
        0
    };
    mask = mask | if layout.owner.is_some() {
        GAMEPLAY_MASK_OWNER
    } else {
        0
    };
    mask = mask | if layout.stunned {
        GAMEPLAY_MASK_STUNNED
    } else {
        0
    };
    mask = mask | if variant == 1 || variant == 3 {
        GAMEPLAY_MASK_TAG_A
    } else {
        0
    };
    mask = mask | if variant == 2 || variant == 3 {
        GAMEPLAY_MASK_TAG_B
    } else {
        0
    };
    mask
}

/// Setting any of thirteen flag bits over the always-set lowest bit leaves
/// each bit readable on its own.
proof fn lemma_flag_bits(
    b1: bool,
    b2: bool,
    b3: bool,
    b4: bool,
    b5: bool,
    b6: bool,
    b7: bool,
    b8: bool,
    b9: bool,
    b10: bool,
    b11: bool,
    b12: bool,
    b13: bool,
    m: u16,
)
    by (bit_vector)
    requires
        m == 1u16 | (if b1 {
            2u16
        } else {
            0u16
        }) | (if b2 {
            4u16
        } else {
            0u16
        }) | (if b3 {
            8u16
        } else {
            0u16
        }) | (if b4 {
            16u16
        } else {
            0u16
        }) | (if b5 {
            32u16
        } else {
            0u16
        }) | (if b6 {
            64u16
        } else {
            0u16
        }) | (if b7 {
            128u16
        } else {
            0u16
        }) | (if b8 {
            256u16
        } else {
            0u16
        }) | (if b9 {
            512u16
        } else {
            0u16
        }) | (if b10 {
            1024u16
        } else {
            0u16
        }) | (if b11 {
            2048u16
        } else {
            0u16
        }) | (if b12 {
            4096u16
        } else {
            0u16
        }) | (if b13 {
            8192u16
        } else {
            0u16
        }),
    ensures
        m & 1u16 != 0,
        (m & 2u16 != 0) == b1,
        (m & 4u16 != 0) == b2,
        (m & 8u16 != 0) == b3,
        (m & 16u16 != 0) == b4,
        (m & 32u16 != 0) == b5,
        (m & 64u16 != 0) == b6,
        (m & 128u16 != 0) == b7,
        (m & 256u16 != 0) == b8,
        (m & 512u16 != 0) == b9,
        (m & 1024u16 != 0) == b10,
        (m & 2048u16 != 0) == b11,
        (m & 4096u16 != 0) == b12,
        (m & 8192u16 != 0) == b13,
{
}

/// The component mask records exactly the components an entity carries:
/// the position bit is always set, and every other component and tag has
/// a bit of its own that is set exactly when the entity carries it.
pub proof fn lemma_layout_mask_records_components(l: GameplayLayout, variant: int)
    ensures
        layout_mask(l, variant) & GAMEPLAY_MASK_POSITION != 0,
        (layout_mask(l, variant) & GAMEPLAY_MASK_VELOCITY != 0) == l.velocity,
        (layout_mask(l, variant) & GAMEPLAY_MASK_HEALTH != 0) == l.health,
        (layout_mask(l, variant) & GAMEPLAY_MASK_DAMAGE != 0) == l.damage,
        (layout_mask(l, variant) & GAMEPLAY_MASK_REGEN != 0) == l.regen,
        (layout_mask(l, variant) & GAMEPLAY_MASK_ENEMY != 0) == l.enemy,
        (layout_mask(l, variant) & GAMEPLAY_MASK_ALLY != 0) == l.ally,
        (layout_mask(l, variant) & GAMEPLAY_MASK_LIFETIME != 0) == l.lifetime is Some,
        (layout_mask(l, variant) & GAMEPLAY_MASK_TARGET != 0) == l.target is Some,
        (layout_mask(l, variant) & GAMEPLAY_MASK_COOLDOWN != 0) == l.cooldown is Some,
        (layout_mask(l, variant) & GAMEPLAY_MASK_OWNER != 0) == l.owner is Some,
        (layout_mask(l, variant) & GAMEPLAY_MASK_STUNNED != 0) == l.stunned,
        (layout_mask(l, variant) & GAMEPLAY_MASK_TAG_A != 0) == (variant == 1 || variant == 3),
        (layout_mask(l, variant) & GAMEPLAY_MASK_TAG_B != 0) == (variant == 2 || variant == 3),
{
    lemma_flag_bits(
        l.velocity,
        l.health,
        l.damage,
        l.regen,
        l.enemy,
        l.ally,
        l.lifetime is Some,
        l.target is Some,
        l.cooldown is Some,
        l.owner is Some,
        l.stunned,
        variant == 1 || variant == 3,
        variant == 2 || variant == 3,
        layout_mask(l, variant),
    );
}

/// The published population counts follow from the slot ranges: the
/// moving entities are the first `GAMEPLAY_MOVING_COUNT` slots, the
/// entities with health the `GAMEPLAY_HEALTH_COUNT` slots from the first
/// combatant on, and the entities with a lifetime the projectiles and the
/// effects, `GAMEPLAY_LIFETIME_COUNT` in all; the effects end the
/// population.
pub proof fn lemma_layout_populations(slot: int, stunned: bool)
    requires
        0 <= slot < GAMEPLAY_ENTITY_COUNT,
    ensures
        GAMEPLAY_EFFECT_START + GAMEPLAY_EFFECT_COUNT == GAMEPLAY_ENTITY_COUNT,
        GAMEPLAY_PROJECTILE_COUNT + GAMEPLAY_EFFECT_COUNT == GAMEPLAY_LIFETIME_COUNT,
        layout_of(slot, stunned).velocity <==> slot < GAMEPLAY_MOVING_COUNT,
        layout_of(slot, stunned).health <==> GAMEPLAY_COMBAT_START <= slot < GAMEPLAY_COMBAT_START
            + GAMEPLAY_HEALTH_COUNT,
        layout_of(slot, stunned).lifetime is Some <==> (GAMEPLAY_PROJECTILE_START <= slot
            < GAMEPLAY_PROJECTILE_START + GAMEPLAY_PROJECTILE_COUNT || GAMEPLAY_EFFECT_START
            <= slot),
        layout_of(slot, stunned).stunned == stunned,
{
}

/// The `index`-th AI slot of AI cohort `cohort`.
pub open spec fn ai_slot_of(cohort: int, index: int) -> int {
    GAMEPLAY_AI_START + cohort + index * GAMEPLAY_AI_COHORT_COUNT
}

/// The `index`-th combat slot of status cohort `cohort`.
pub open spec fn status_slot_of(cohort: int, index: int) -> int {
    GAMEPLAY_COMBAT_START + cohort + index * GAMEPLAY_STATUS_COHORT_COUNT
}

/// The `index`-th projectile slot of recycle cohort `cohort`.
pub open spec fn projectile_slot_of(cohort: int, index: int) -> int {
    GAMEPLAY_PROJECTILE_START + cohort + index * GAMEPLAY_PROJECTILE_LIFETIME_FRAMES
}

/// The AI slots that act together.
pub open spec fn ai_cohort_spec(cohort: int) -> Seq<usize> {
    Seq::new(GAMEPLAY_AI_LOOKUPS_PER_FRAME as nat, |i: int| ai_slot_of(cohort, i) as usize)
}

/// The combat slots that are stunned and released together.
pub open spec fn status_cohort_spec(cohort: int) -> Seq<usize> {
    Seq::new(GAMEPLAY_STATUS_CHANGES_PER_FRAME as nat, |i: int| status_slot_of(cohort, i) as usize)
}

/// The projectile slots that are recycled together.
pub open spec fn projectile_cohort_spec(cohort: int) -> Seq<usize> {
    Seq::new(
        GAMEPLAY_PROJECTILE_RECYCLES_PER_FRAME as nat,
        |i: int| projectile_slot_of(cohort, i) as usize,
    )
}

fn ai_cohort(cohort: usize) -> (r: Vec<usize>)
    requires
        cohort < GAMEPLAY_AI_COHORT_COUNT,
    ensures
        r@ == ai_cohort_spec(cohort as int),
{
    let mut r: Vec<usize> = Vec::new();
    let mut index: usize = 0;
    while index < GAMEPLAY_AI_LOOKUPS_PER_FRAME
        invariant
            cohort < GAMEPLAY_AI_COHORT_COUNT,
            index <= GAMEPLAY_AI_LOOKUPS_PER_FRAME,
            r@ == ai_cohort_spec(cohort as int).subrange(0, index as int),
        decreases GAMEPLAY_AI_LOOKUPS_PER_FRAME - index,
    {
        assert(index * GAMEPLAY_AI_COHORT_COUNT < 8192) by (nonlinear_arith)
            requires
                index < 2048,
                GAMEPLAY_AI_COHORT_COUNT == 4,
        ;
        r.push(GAMEPLAY_AI_START + cohort + index * GAMEPLAY_AI_COHORT_COUNT);
        index = index + 1;
        assert(r@ =~= ai_cohort_spec(cohort as int).subrange(0, index as int));
    }
    assert(r@ =~= ai_cohort_spec(cohort as int));
    r
}

fn status_cohort(cohort: usize) -> (r: Vec<usize>)
    requires
        cohort < GAMEPLAY_STATUS_COHORT_COUNT,
    ensures
        r@ == status_cohort_spec(cohort as int),
{
    let mut r: Vec<usize> = Vec::new();
    let mut index: usize = 0;
    while index < GAMEPLAY_STATUS_CHANGES_PER_FRAME
        invariant
            cohort < GAMEPLAY_STATUS_COHORT_COUNT,
            index <= GAMEPLAY_STATUS_CHANGES_PER_FRAME,
            r@ == status_cohort_spec(cohort as int).subrange(0, index as int),
        decreases GAMEPLAY_STATUS_CHANGES_PER_FRAME - index,
    {
        assert(index * GAMEPLAY_STATUS_COHORT_COUNT < 2048) by (nonlinear_arith)
            requires
                index < 128,
                GAMEPLAY_STATUS_COHORT_COUNT == 16,
        ;
        r.push(GAMEPLAY_COMBAT_START + cohort + index * GAMEPLAY_STATUS_COHORT_COUNT);
        index = index + 1;
        assert(r@ =~= status_cohort_spec(cohort as int).subrange(0, index as int));
    }
    assert(r@ =~= status_cohort_spec(cohort as int));
    r
}

fn projectile_cohort(cohort: usize) -> (r: Vec<usize>)
    requires
        cohort < GAMEPLAY_PROJECTILE_LIFETIME_FRAMES,
    ensures
        r@ == projectile_cohort_spec(cohort as int),
{
    let mut r: Vec<usize> = Vec::new();
    let mut index: usize = 0;
    while index < GAMEPLAY_PROJECTILE_RECYCLES_PER_FRAME
        invariant
            cohort < GAMEPLAY_PROJECTILE_LIFETIME_FRAMES,
            index <= GAMEPLAY_PROJECTILE_RECYCLES_PER_FRAME,
            r@ == projectile_cohort_spec(cohort as int).subrange(0, index as int),
        decreases GAMEPLAY_PROJECTILE_RECYCLES_PER_FRAME - index,
    {
        assert(index * GAMEPLAY_PROJECTILE_LIFETIME_FRAMES < 8192) by (nonlinear_arith)
            requires
                index < 128,
                GAMEPLAY_PROJECTILE_LIFETIME_FRAMES == 64,
        ;
        r.push(GAMEPLAY_PROJECTILE_START + cohort + index * GAMEPLAY_PROJECTILE_LIFETIME_FRAMES);
        index = index + 1;
        assert(r@ =~= projectile_cohort_spec(cohort as int).subrange(0, index as int));
    }
    assert(r@ =~= projectile_cohort_spec(cohort as int));
    r
}

/// The work of one frame of the gameplay trace.
#[derive(Clone, Debug)]
pub struct GameplayFrame {
    pub index: usize,
    /// One quarter of the AI population. Each selected AI performs a direct
    /// lookup of its target's Position component.
    pub ai_slots: Vec<usize>,
    pub remove_stunned: Vec<usize>,
    pub add_stunned: Vec<usize>,
    /// Existing projectiles are despawned and replacements are spawned into
    /// the same logical slots. The adapter must refresh its slot->entity map.
    pub recycle_projectiles: Vec<usize>,
}

/// The AI slots that act in frame `f`.
pub open spec fn frame_ai_slots(f: int) -> Seq<usize> {
    ai_cohort_spec(f % GAMEPLAY_AI_COHORT_COUNT as int)
}

/// The combat slots released from the stun in frame `f`.
pub open spec fn frame_remove_stunned(f: int) -> Seq<usize> {
    status_cohort_spec(
        (f + GAMEPLAY_STATUS_DURATION_FRAMES) % GAMEPLAY_STATUS_COHORT_COUNT as int,
    )
}

/// The combat slots stunned in frame `f`.
pub open spec fn frame_add_stunned(f: int) -> Seq<usize> {
    status_cohort_spec(f % GAMEPLAY_STATUS_COHORT_COUNT as int)
}

/// The projectile slots recycled in frame `f`.
pub open spec fn frame_recycle_projectiles(f: int) -> Seq<usize> {
    projectile_cohort_spec(f % GAMEPLAY_PROJECTILE_LIFETIME_FRAMES as int)
}

/// `frame` is frame `f` of the canonical trace.
pub open spec fn is_canonical_frame(frame: GameplayFrame, f: int) -> bool {
    &&& frame.index == f
    &&& frame.ai_slots@ == frame_ai_slots(f)
    &&& frame.remove_stunned@ == frame_remove_stunned(f)
    &&& frame.add_stunned@ == frame_add_stunned(f)
    &&& frame.recycle_projectiles@ == frame_recycle_projectiles(f)
}

/// The combat slots stunned before the first frame: the status cohorts
/// that the first frames release.
pub open spec fn initially_stunned_spec() -> Seq<usize> {
    Seq::new(
        GAMEPLAY_STUNNED_COUNT as nat,
        |i: int|
            status_slot_of(
                GAMEPLAY_STATUS_DURATION_FRAMES + i / GAMEPLAY_STATUS_CHANGES_PER_FRAME as int,
                i % GAMEPLAY_STATUS_CHANGES_PER_FRAME as int,
            ) as usize,
    )
}

/// The canonical gameplay trace.
#[derive(Clone, Debug)]
pub struct GameplayTrace {
    frames: Vec<GameplayFrame>,
    initially_stunned: Vec<usize>,
}

/// The content of a gameplay trace.
pub struct GameplayTraceView {
    pub frames: Seq<GameplayFrame>,
    pub initially_stunned: Seq<usize>,
}

impl View for GameplayTrace {
    type V = GameplayTraceView;

    closed spec fn view(&self) -> GameplayTraceView {
        GameplayTraceView { frames: self.frames@, initially_stunned: self.initially_stunned@ }
    }
}

/// `t` is the canonical trace: its 256 frames and its initial stun.
pub open spec fn is_standard_trace(t: GameplayTraceView) -> bool {
    &&& t.frames.len() == GAMEPLAY_FRAME_COUNT
    &&& forall|f: int|
        0 <= f < GAMEPLAY_FRAME_COUNT ==> is_canonical_frame(#[trigger] t.frames[f], f)
    &&& t.initially_stunned == initially_stunned_spec()
}

impl GameplayTrace {
    /// The canonical trace of [`GAMEPLAY_FRAME_COUNT`] frames.
    pub fn standard() -> (r: GameplayTrace)
        ensures
            is_standard_trace(r@),
    {
        let mut initially_stunned: Vec<usize> = Vec::new();
        let mut cohort: usize = GAMEPLAY_STATUS_DURATION_FRAMES;
        while cohort < GAMEPLAY_STATUS_COHORT_COUNT
            invariant
                GAMEPLAY_STATUS_DURATION_FRAMES <= cohort <= GAMEPLAY_STATUS_COHORT_COUNT,
                initially_stunned@ == initially_stunned_spec().subrange(
                    0,
                    (cohort - GAMEPLAY_STATUS_DURATION_FRAMES) * GAMEPLAY_STATUS_CHANGES_PER_FRAME,
                ),
            decreases GAMEPLAY_STATUS_COHORT_COUNT - cohort,
        {
            let members = status_cohort(cohort);
            let ghost before = initially_stunned@;
            let ghost base: int = (cohort - GAMEPLAY_STATUS_DURATION_FRAMES)
                * GAMEPLAY_STATUS_CHANGES_PER_FRAME;
            let mut index: usize = 0;
            while index < members.len()
                invariant
                    GAMEPLAY_STATUS_DURATION_FRAMES <= cohort < GAMEPLAY_STATUS_COHORT_COUNT,
                    base == (cohort - GAMEPLAY_STATUS_DURATION_FRAMES)
                        * GAMEPLAY_STATUS_CHANGES_PER_FRAME,
                    members@ == status_cohort_spec(cohort as int),
                    index <= members@.len(),
                    initially_stunned@ == initially_stunned_spec().subrange(0, base + index),
                decreases members@.len() - index,
            {
                initially_stunned.push(members[index]);
                index = index + 1;
                proof {
                    let i = base + index - 1;
                    assert(i / GAMEPLAY_STATUS_CHANGES_PER_FRAME as int == cohort
                        - GAMEPLAY_STATUS_DURATION_FRAMES);
                    assert(i % GAMEPLAY_STATUS_CHANGES_PER_FRAME as int == index - 1);
                    assert(initially_stunned@ =~= initially_stunned_spec().subrange(
                        0,
                        base + index,
                    ));
                }
            }
            cohort = cohort + 1;
        }
        assert(initially_stunned@ =~= initially_stunned_spec());
        let mut frames: Vec<GameplayFrame> = Vec::new();
        let mut index: usize = 0;
        while index < GAMEPLAY_FRAME_COUNT
            invariant
                index <= GAMEPLAY_FRAME_COUNT,
                frames@.len() == index,
                forall|f: int| 0 <= f < index ==> is_canonical_frame(#[trigger] frames@[f], f),
            decreases GAMEPLAY_FRAME_COUNT - index,
        {
            let frame = GameplayFrame {
                index,
                ai_slots: ai_cohort(index % GAMEPLAY_AI_COHORT_COUNT),
                remove_stunned: status_cohort(
                    (index + GAMEPLAY_STATUS_DURATION_FRAMES) % GAMEPLAY_STATUS_COHORT_COUNT,
                ),
                add_stunned: status_cohort(index % GAMEPLAY_STATUS_COHORT_COUNT),
                recycle_projectiles: projectile_cohort(
                    index % GAMEPLAY_PROJECTILE_LIFETIME_FRAMES,
                ),
            };
            frames.push(frame);
            index = index + 1;
        }
        GameplayTrace { frames, initially_stunned }
    }

    /// The frames of the trace, in order.
    pub fn frames(&self) -> (r: &[GameplayFrame])
        ensures
            r@ == self@.frames,
    {
        self.frames.as_slice()
    }

    /// The combat slots that are stunned before the first frame.
    pub fn initially_stunned(&self) -> (r: &[usize])
        ensures
            r@ == self@.initially_stunned,
    {
        self.initially_stunned.as_slice()
    }
}

/// The combat slots of status cohorts are the slots `status_slot_of(c, j)`.
pub open spec fn is_status_slot(x: int) -> bool {
    GAMEPLAY_COMBAT_START <= x < GAMEPLAY_COMBAT_START + GAMEPLAY_STATUS_COHORT_COUNT
        * GAMEPLAY_STATUS_CHANGES_PER_FRAME
}

/// The status cohort of a status slot.
pub open spec fn status_cohort_of(x: int) -> int {
    (x - GAMEPLAY_COMBAT_START) % GAMEPLAY_STATUS_COHORT_COUNT as int
}

/// Whether slot `x` is stunned just before frame `f`: the status cohorts
/// stunned during the previous eight frames.
pub open spec fn stunned_before_frame(f: int, x: int) -> bool {
    &&& is_status_slot(x)
    &&& (status_cohort_of(x) - f) % GAMEPLAY_STATUS_COHORT_COUNT as int
        >= GAMEPLAY_STATUS_DURATION_FRAMES
}

/// A slot is in status cohort `c` exactly when it is a status slot of that cohort.
pub proof fn lemma_status_cohort_members(c: int, x: int)
    requires
        0 <= c < GAMEPLAY_STATUS_COHORT_COUNT,
    ensures
        status_cohort_spec(c).contains(x as usize) && 0 <= x <= usize::MAX <==> (is_status_slot(x)
            && status_cohort_of(x) == c),
{
    let s = status_cohort_spec(c);
    if 0 <= x <= usize::MAX && s.contains(x as usize) {
        let j = choose|j: int| 0 <= j < s.len() && s[j] == x as usize;
        assert(s[j] == status_slot_of(c, j) as usize);
    }
    if is_status_slot(x) && status_cohort_of(x) == c {
        let j = (x - GAMEPLAY_COMBAT_START) / GAMEPLAY_STATUS_COHORT_COUNT as int;
        assert(x == status_slot_of(c, j));
        assert(s[j] == x as usize);
    }
}

/// `x % 16 == r` when `x == q * 16 + r` and `0 <= r < 16`.
proof fn lemma_mod_16(x: int, q: int, r: int)
    requires
        0 <= r < 16,
        x == q * 16 + r,
    ensures
        x % 16 == r,
{
    vstd::arithmetic::div_mod::lemma_fundamental_div_mod_converse_mod(x, 16, q, r);
}

/// How the offset of status cohort `c` from frame `f` moves from one frame
/// to the next, and which offsets the frame's release and stun cohorts have.
proof fn lemma_cohort_offset(c: int, f: int)
    requires
        0 <= c < 16,
        0 <= f,
    ensures
        ((c - (f + 1)) % 16 == if (c - f) % 16 == 0 {
            15
        } else {
            (c - f) % 16 - 1
        }),
        (c == (f + 8) % 16) <==> (c - f) % 16 == 8,
        (c == f % 16) <==> (c - f) % 16 == 0,
{
    vstd::arithmetic::div_mod::lemma_fundamental_div_mod(f, 16);
    let q = f / 16;
    let r0 = f % 16;
    assert(f == q * 16 + r0);
    if c >= r0 {
        lemma_mod_16(c - f, -q, c - r0);
    } else {
        lemma_mod_16(c - f, -q - 1, c - r0 + 16);
    }
    let t = c - r0 - 1;
    if t >= 0 {
        lemma_mod_16(c - (f + 1), -q, t);
    } else {
        lemma_mod_16(c - (f + 1), -q - 1, t + 16);
    }
    if r0 < 8 {
        lemma_mod_16(f + 8, q, r0 + 8);
    } else {
        lemma_mod_16(f + 8, q + 1, r0 - 8);
    }
}

/// The status cohort of `status_slot_of(c, j)` is `c`.
proof fn lemma_status_slot_cohort(c: int, j: int)
    requires
        0 <= c < 16,
        0 <= j < 128,
    ensures
        is_status_slot(status_slot_of(c, j)),
        status_cohort_of(status_slot_of(c, j)) == c,
{
    lemma_mod_16(c + j * 16, j, c);
}

/// The stun part of the canonical trace is consistent: the initial stun is
/// the state before frame 0; every frame releases only stunned slots and
/// stuns only free ones; and releasing then stunning gives the state before
/// the next frame.
pub proof fn lemma_status_trace_consistent(f: int, x: int)
    requires
        0 <= f,
        0 <= x <= usize::MAX,
    ensures
        initially_stunned_spec().contains(x as usize) <==> stunned_before_frame(0, x),
        frame_remove_stunned(f).contains(x as usize) ==> stunned_before_frame(f, x),
        frame_add_stunned(f).contains(x as usize) ==> !stunned_before_frame(f, x),
        stunned_before_frame(f + 1, x) <==> ((stunned_before_frame(f, x)
            && !frame_remove_stunned(f).contains(x as usize)) || frame_add_stunned(
            f,
        ).contains(x as usize)),
{
    let removed = (f + GAMEPLAY_STATUS_DURATION_FRAMES) % GAMEPLAY_STATUS_COHORT_COUNT as int;
    let added = f % GAMEPLAY_STATUS_COHORT_COUNT as int;
    lemma_status_cohort_members(removed, x);
    lemma_status_cohort_members(added, x);
    if is_status_slot(x) {
        let c = status_cohort_of(x);
        lemma_cohort_offset(c, f);
        lemma_cohort_offset(c, 0);
    }
    let init = initially_stunned_spec();
    if init.contains(x as usize) {
        let i = choose|i: int| 0 <= i < init.len() && init[i] == x as usize;
        let c = GAMEPLAY_STATUS_DURATION_FRAMES + i / GAMEPLAY_STATUS_CHANGES_PER_FRAME as int;
        let j = i % GAMEPLAY_STATUS_CHANGES_PER_FRAME as int;
        assert(x == status_slot_of(c, j));
        lemma_status_slot_cohort(c, j);
        lemma_mod_16(c - 0, 0, c);
    }
    if stunned_before_frame(0, x) {
        let c = status_cohort_of(x);
        vstd::arithmetic::div_mod::lemma_fundamental_div_mod(x - GAMEPLAY_COMBAT_START, 16);
        let j = (x - GAMEPLAY_COMBAT_START) / GAMEPLAY_STATUS_COHORT_COUNT as int;
        lemma_mod_16(c - 0, 0, c);
        let i = (c - GAMEPLAY_STATUS_DURATION_FRAMES) * GAMEPLAY_STATUS_CHANGES_PER_FRAME + j;
        vstd::arithmetic::div_mod::lemma_fundamental_div_mod_converse_div(
            i,
            128,
            c - 8,
            j,
        );
        vstd::arithmetic::div_mod::lemma_fundamental_div_mod_converse_mod(i, 128, c - 8, j);
        assert(init[i] == x as usize);
    }
}

/// The AI slots that act in frame `f` are the AI slots whose offset from
/// the first AI slot leaves the remainder `f` modulo
/// [`GAMEPLAY_AI_COHORT_COUNT`], each listed once: every AI entity acts
/// exactly once in any [`GAMEPLAY_AI_COHORT_COUNT`] consecutive frames.
pub proof fn lemma_ai_slot_frames(f: int, x: int)
    requires
        0 <= f,
        0 <= x <= usize::MAX,
    ensures
        frame_ai_slots(f).contains(x as usize) <==> (GAMEPLAY_AI_START <= x < GAMEPLAY_PROJECTILE_START
            && (x - GAMEPLAY_AI_START) % GAMEPLAY_AI_COHORT_COUNT as int == f
            % GAMEPLAY_AI_COHORT_COUNT as int),
        frame_ai_slots(f).no_duplicates(),
{
    let c = f % 4;
    let s = frame_ai_slots(f);
    if s.contains(x as usize) {
        let j = choose|j: int| 0 <= j < s.len() && s[j] == x as usize;
        assert(x == ai_slot_of(c, j));
        vstd::arithmetic::div_mod::lemma_fundamental_div_mod_converse_mod(x - GAMEPLAY_AI_START, 4, j, c);
    }
    if GAMEPLAY_AI_START <= x < GAMEPLAY_PROJECTILE_START && (x - GAMEPLAY_AI_START) % 4 == c {
        vstd::arithmetic::div_mod::lemma_fundamental_div_mod(x - GAMEPLAY_AI_START, 4);
        let j = (x - GAMEPLAY_AI_START) / 4;
        assert(x == ai_slot_of(c, j));
        assert(s[j] == x as usize);
    }
}

/// The projectile slots recycled in frame `f` are the projectile slots
/// whose offset from the first projectile leaves the remainder `f` modulo
/// [`GAMEPLAY_PROJECTILE_LIFETIME_FRAMES`], each listed once: every
/// projectile is recycled exactly once in any
/// [`GAMEPLAY_PROJECTILE_LIFETIME_FRAMES`] consecutive frames.
pub proof fn lemma_projectile_recycle_frames(f: int, x: int)
    requires
        0 <= f,
        0 <= x <= usize::MAX,
    ensures
        frame_recycle_projectiles(f).contains(x as usize) <==> (GAMEPLAY_PROJECTILE_START <= x
            < GAMEPLAY_STATIC_START && (x - GAMEPLAY_PROJECTILE_START)
            % GAMEPLAY_PROJECTILE_LIFETIME_FRAMES as int == f
            % GAMEPLAY_PROJECTILE_LIFETIME_FRAMES as int),
        frame_recycle_projectiles(f).no_duplicates(),
{
    let c = f % 64;
    let s = frame_recycle_projectiles(f);
    if s.contains(x as usize) {
        let j = choose|j: int| 0 <= j < s.len() && s[j] == x as usize;
        assert(x == projectile_slot_of(c, j));
        vstd::arithmetic::div_mod::lemma_fundamental_div_mod_converse_mod(
            x - GAMEPLAY_PROJECTILE_START,
            64,
            j,
            c,
        );
    }
    if GAMEPLAY_PROJECTILE_START <= x < GAMEPLAY_STATIC_START && (x - GAMEPLAY_PROJECTILE_START) % 64
        == c {
        vstd::arithmetic::div_mod::lemma_fundamental_div_mod(x - GAMEPLAY_PROJECTILE_START, 64);
        let j = (x - GAMEPLAY_PROJECTILE_START) / 64;
        assert(x == projectile_slot_of(c, j));
        assert(s[j] == x as usize);
    }
}

/// A stunned combatant is released exactly [`GAMEPLAY_STATUS_DURATION_FRAMES`]
/// frames after it was stunned.
pub proof fn lemma_status_lasts_duration(f: int)
    requires
        0 <= f,
    ensures
        frame_add_stunned(f) == frame_remove_stunned(f + GAMEPLAY_STATUS_DURATION_FRAMES),
        forall|x: usize| #[trigger]
            frame_add_stunned(f).contains(x) ==> !frame_remove_stunned(f).contains(x),
{
    assert(f % 16 == (f + 16) % 16);
    assert forall|x: usize| #[trigger] frame_add_stunned(f).contains(x) implies !frame_remove_stunned(
        f,
    ).contains(x) by {
        lemma_status_cohort_members(f % 16, x as int);
        lemma_status_cohort_members((f + 8) % 16, x as int);
    }
}

/// A projectile slot is recycled every [`GAMEPLAY_PROJECTILE_LIFETIME_FRAMES`] frames.
pub proof fn lemma_projectile_recycle_period(f: int)
    requires
        0 <= f,
    ensures
        frame_recycle_projectiles(f) == frame_recycle_projectiles(
            f + GAMEPLAY_PROJECTILE_LIFETIME_FRAMES,
        ),
{
    assert(f % 64 == (f + 64) % 64);
}

/// The state of every engine after the canonical trace, folded into counts
/// and checksums.
#[derive(Clone, Copy, Debug, PartialEq, Eq, Structural)]
pub struct GameplayDigest {
    pub actual_entity_count: usize,
    pub unique_mapped_entity_count: usize,
    pub moving_count: usize,
    pub health_count: usize,
    pub lifetime_count: usize,
    pub stunned_count: usize,
    pub component_mask_checksum: u64,
    pub position_checksum: u64,
    pub velocity_checksum: u64,
    pub health_checksum: u64,
    pub damage_checksum: u64,
    pub regen_checksum: u64,
    pub cooldown_checksum: u64,
    pub lifetime_checksum: u64,
    pub target_slot_checksum: u64,
    pub owner_slot_checksum: u64,
    pub cooldown_trace_checksum: u64,
    pub generation_checksum: u64,
    pub ai_lookup_checksum: u64,
}

/// Canonical state after running [`GameplayTrace::standard`] for all 256
/// frames. Adapter validation compares against this value, not against
/// another ECS implementation.
pub fn gameplay_canonical_digest() -> (r: GameplayDigest)
    ensures
        r.actual_entity_count == GAMEPLAY_ENTITY_COUNT,
        r.unique_mapped_entity_count == GAMEPLAY_ENTITY_COUNT,
        r.moving_count == GAMEPLAY_MOVING_COUNT,
        r.health_count == GAMEPLAY_HEALTH_COUNT,
        r.lifetime_count == GAMEPLAY_LIFETIME_COUNT,
        r.stunned_count == GAMEPLAY_STUNNED_COUNT,
        r.component_mask_checksum == 13_341_931_166_528_947_233u64,
        r.position_checksum == 10_560_141_441_565_265_326u64,
        r.velocity_checksum == 1_395_278_975_465_285_033u64,
        r.health_checksum == 9_148_023_443_901_091_336u64,
        r.damage_checksum == 16_656_466_140_374_394_388u64,
        r.regen_checksum == 14_036_302_533_298_054_945u64,
        r.cooldown_checksum == 14_603_649_943_731_757_795u64,
        r.lifetime_checksum == 8_703_545_528_283_948_197u64,
        r.target_slot_checksum == 9_422_107_194_792_689_560u64,
        r.owner_slot_checksum == 722_449_847_523_312_062u64,
        r.cooldown_trace_checksum == 8_983_881_960_368_478_124u64,
        r.generation_checksum == 9_000_274_208_603_740_793u64,
        r.ai_lookup_checksum == 6_326_298_520_588_265_962u64,
{
    GameplayDigest {
        actual_entity_count: 65_536,
        unique_mapped_entity_count: 65_536,
        moving_count: 53_248,
        health_count: 24_576,
        lifetime_count: 12_288,
        stunned_count: 1_024,
        component_mask_checksum: 13_341_931_166_528_947_233,
        position_checksum: 10_560_141_441_565_265_326,
        velocity_checksum: 1_395_278_975_465_285_033,
        health_checksum: 9_148_023_443_901_091_336,
        damage_checksum: 16_656_466_140_374_394_388,
        regen_checksum: 14_036_302_533_298_054_945,
        cooldown_checksum: 14_603_649_943_731_757_795,
        lifetime_checksum: 8_703_545_528_283_948_197,
        target_slot_checksum: 9_422_107_194_792_689_560,
        owner_slot_checksum: 722_449_847_523_312_062,
        cooldown_trace_checksum: 8_983_881_960_368_478_124,
        generation_checksum: 9_000_274_208_603_740_793,
        ai_lookup_checksum: 6_326_298_520_588_265_962,
    }
}

/// `x` rotated left by `n` bits.
pub open spec fn rotate_left_spec(x: u64, n: u64) -> u64 {
    (x << n) | (x >> (64 - n) as u64)
}

/// The order-sensitive mixing step of every gameplay checksum.
pub open spec fn mix_checksum(checksum: u64, slot: u64, value: u64) -> u64 {
    u64_specs::wrapping_add(
        rotate_left_spec(checksum, 7),
        u64_specs::wrapping_mul(slot, 0x9e37_79b9_7f4a_7c15),
    ) ^ u64_specs::wrapping_mul(value, 0xbf58_476d_1ce4_e5b9)
}

/// Multiplying by the value constant of the mix, wrapping, is undone by
/// multiplying by its inverse modulo 2^64.
proof fn lemma_value_multiplier_invertible(v: u64)
    ensures
        ((u64_specs::wrapping_mul(v, 0xbf58_476d_1ce4_e5b9) as int) * 0x96de_1b17_3f11_9089int)
            % 0x1_0000_0000_0000_0000int == v,
{
    let m = 0x1_0000_0000_0000_0000int;
    let k = 0xbf58_476d_1ce4_e5b9int;
    let inverse = 0x96de_1b17_3f11_9089int;
    let t = 8125545580553827436int;
    let x = v as int;
    assert(k * inverse == 1 + t * m);
    vstd::arithmetic::div_mod::lemma_mul_mod_noop_left(x * k, inverse, m);
    assert((x * k) * inverse == x + (x * t) * m) by (nonlinear_arith)
        requires
            k * inverse == 1 + t * m,
    ;
    vstd::arithmetic::div_mod::lemma_mod_multiples_vanish(x * t, x, m);
    assert(m * (x * t) == (x * t) * m) by (nonlinear_arith);
    vstd::arithmetic::div_mod::lemma_small_mod(v as nat, m as nat);
}

/// Rotating left by 7 bits loses no bit.
proof fn lemma_rotate_left_7_injective(a: u64, b: u64)
    by (bit_vector)
    requires
        ((a << 7u64) | (a >> 57u64)) == ((b << 7u64) | (b >> 57u64)),
    ensures
        a == b,
{
}

/// The mix loses nothing of what it folds in: for a fixed running checksum
/// and slot, different values give different results, and for a fixed slot
/// and value, different running checksums give different results.
pub proof fn lemma_mix_checksum_injective(checksum: u64, other: u64, slot: u64, value: u64, other_value: u64)
    ensures
        mix_checksum(checksum, slot, value) == mix_checksum(checksum, slot, other_value) ==> value
            == other_value,
        mix_checksum(checksum, slot, value) == mix_checksum(other, slot, value) ==> checksum == other,
{
    let step = u64_specs::wrapping_mul(slot, 0x9e37_79b9_7f4a_7c15);
    let a = u64_specs::wrapping_add(rotate_left_spec(checksum, 7), step);
    let b = u64_specs::wrapping_add(rotate_left_spec(other, 7), step);
    let x = u64_specs::wrapping_mul(value, 0xbf58_476d_1ce4_e5b9);
    let y = u64_specs::wrapping_mul(other_value, 0xbf58_476d_1ce4_e5b9);
    if mix_checksum(checksum, slot, value) == mix_checksum(checksum, slot, other_value) {
        assert(x == y) by (bit_vector)
            requires
                (a ^ x) == (a ^ y),
        ;
        lemma_value_multiplier_invertible(value);
        lemma_value_multiplier_invertible(other_value);
    }
    if mix_checksum(checksum, slot, value) == mix_checksum(other, slot, value) {
        assert(a == b) by (bit_vector)
            requires
                (a ^ x) == (b ^ x),
        ;
        assert(rotate_left_spec(checksum, 7) == rotate_left_spec(other, 7));
        lemma_rotate_left_7_injective(checksum, other);
    }
}

/// Folds `value`, observed at `slot`, into `checksum`.
pub fn gameplay_mix_checksum(checksum: u64, slot: u64, value: u64) -> (r: u64)
    ensures
        r == mix_checksum(checksum, slot, value),
{
    ((checksum << 7u64) | (checksum >> 57u64)).wrapping_add(slot.wrapping_mul(0x9e37_79b9_7f4a_7c15))
        ^ value.wrapping_mul(0xbf58_476d_1ce4_e5b9)
}

/// The checksum of one AI action: the frame and slot, the target, and the
/// cooldown left after the action.
pub open spec fn ai_trace_checksum(
    checksum: u64,
    frame: usize,
    slot: usize,
    target: usize,
    cooldown_after: u32,
) -> u64 {
    let a = mix_checksum(checksum, frame as u64, slot as u64);
    let b = mix_checksum(a, slot as u64, target as u64);
    mix_checksum(b, target as u64, cooldown_after as u64)
}

/// Folds one AI action into the cooldown trace checksum.
pub fn gameplay_ai_trace_checksum(
    checksum: u64,
    frame: usize,
    slot: usize,
    target: usize,
    cooldown_after: u32,
) -> (r: u64)
    ensures
        r == ai_trace_checksum(checksum, frame, slot, target, cooldown_after),
{
    let checksum = gameplay_mix_checksum(checksum, frame as u64, slot as u64);
    let checksum = gameplay_mix_checksum(checksum, slot as u64, target as u64);
    gameplay_mix_checksum(checksum, target as u64, cooldown_after as u64)
}

/// The bits that identify a position, from the bit patterns of its three
/// `f32` coordinates.
pub open spec fn position_bits(x_bits: u32, y_bits: u32, z_bits: u32) -> u64 {
    (x_bits as u64) ^ rotate_left_spec(y_bits as u64, 21) ^ rotate_left_spec(z_bits as u64, 42)
}

/// What the position bits are, arithmetically: `x`, then `y` moved up 21
/// bits, then `z` turned round by 42 bits: its low 22 bits move up to the
/// top and its high 10 bits wrap round to the bottom; the three are
/// combined by exclusive or. No bit of `z` is lost.
pub proof fn lemma_position_bits_rotate(x_bits: u32, y_bits: u32, z_bits: u32)
    ensures
        position_bits(x_bits, y_bits, z_bits) == (x_bits as u64) ^ (((y_bits as u64) * 0x20_0000) as u64)
            ^ ((((z_bits as u64) % 0x40_0000) * 0x400_0000_0000 + (z_bits as u64) / 0x40_0000) as u64),
{
    let x = x_bits as u64;
    let y = y_bits as u64;
    let z = z_bits as u64;
    assert(x ^ ((y << 21u64) | (y >> 43u64)) ^ ((z << 42u64) | (z >> 22u64)) == x ^ ((y * 0x20_0000)
        as u64) ^ (((z % 0x40_0000) * 0x400_0000_0000 + z / 0x40_0000) as u64)) by (bit_vector)
        requires
            y < 0x1_0000_0000,
            z < 0x1_0000_0000,
    ;
}

/// The identifying bits of a position whose coordinates have the bit
/// patterns `x_bits`, `y_bits` and `z_bits`.
pub fn gameplay_position_bits(x_bits: u32, y_bits: u32, z_bits: u32) -> (r: u64)
    ensures
        r == position_bits(x_bits, y_bits, z_bits),
{
    let x = x_bits as u64;
    let y = y_bits as u64;
    let z = z_bits as u64;
    x ^ ((y << 21u64) | (y >> 43u64)) ^ ((z << 42u64) | (z >> 22u64))
}

/// Folds one target lookup into the AI lookup checksum.
pub fn gameplay_ai_lookup_checksum(
    checksum: u64,
    slot: usize,
    target: usize,
    x_bits: u32,
    y_bits: u32,
    z_bits: u32,
) -> (r: u64)
    ensures
        r == mix_checksum(
            mix_checksum(checksum, slot as u64, target as u64),
            target as u64,
            position_bits(x_bits, y_bits, z_bits),
        ),
{
    let checksum = gameplay_mix_checksum(checksum, slot as u64, target as u64);
    gameplay_mix_checksum(checksum, target as u64, gameplay_position_bits(x_bits, y_bits, z_bits))
}

/// The value that a three-coordinate vector contributes to a checksum, from
/// the bit patterns of its `f32` coordinates.
pub open spec fn vector_bits(x_bits: u32, y_bits: u32, z_bits: u32) -> u64 {
    (x_bits as u64) ^ ((y_bits as u64) << 1u64) ^ ((z_bits as u64) << 2u64)
}

/// The value checksums of the optional gameplay components.
pub struct GameplayValueChecksums {
    pub velocity: u64,
    pub damage: u64,
    pub regen: u64,
    pub cooldown: u64,
}

impl Default for GameplayValueChecksums {
    fn default() -> (r: Self)
        ensures
            r.velocity == 0 && r.damage == 0 && r.regen == 0 && r.cooldown == 0,
    {
        GameplayValueChecksums { velocity: 0, damage: 0, regen: 0, cooldown: 0 }
    }
}

impl GameplayValueChecksums {
    /// Observes the components present at `slot`; a velocity is given by
    /// the bit patterns of its coordinates, damage and regeneration by the
    /// bit patterns of their values.
    pub fn observe(
        &mut self,
        slot: usize,
        velocity: Option<(u32, u32, u32)>,
        damage: Option<u32>,
        regen: Option<u32>,
        cooldown: Option<&Cooldown>,
    )
        ensures
            final(self).velocity == match velocity {
                Some((x, y, z)) => mix_checksum(old(self).velocity, slot as u64, vector_bits(x, y, z)),
                None => old(self).velocity,
            },
            final(self).damage == match damage {
                Some(bits) => mix_checksum(old(self).damage, slot as u64, bits as u64),
                None => old(self).damage,
            },
            final(self).regen == match regen {
                Some(bits) => mix_checksum(old(self).regen, slot as u64, bits as u64),
                None => old(self).regen,
            },
            final(self).cooldown == match cooldown {
                Some(c) => mix_checksum(old(self).cooldown, slot as u64, c.0 as u64),
                None => old(self).cooldown,
            },
    {
        if let Some((x, y, z)) = velocity {
            self.observe_velocity(slot, x, y, z);
        }
        if let Some(bits) = damage {
            self.observe_damage(slot, bits);
        }
        if let Some(bits) = regen {
            self.observe_regen(slot, bits);
        }
        if let Some(c) = cooldown {
            self.observe_cooldown(slot, c);
        }
    }

    /// Observes a velocity whose coordinates have the given bit patterns.
    pub fn observe_velocity(&mut self, slot: usize, x_bits: u32, y_bits: u32, z_bits: u32)
        ensures
            final(self).velocity == mix_checksum(
                old(self).velocity,
                slot as u64,
                vector_bits(x_bits, y_bits, z_bits),
            ),
            final(self).damage == old(self).damage,
            final(self).regen == old(self).regen,
            final(self).cooldown == old(self).cooldown,
    {
        let value = (x_bits as u64) ^ ((y_bits as u64) << 1u64) ^ ((z_bits as u64) << 2u64);
        self.velocity = gameplay_mix_checksum(self.velocity, slot as u64, value);
    }

    /// Observes a damage value with the given bit pattern.
    pub fn observe_damage(&mut self, slot: usize, bits: u32)
        ensures
            final(self).damage == mix_checksum(old(self).damage, slot as u64, bits as u64),
            final(self).velocity == old(self).velocity,
            final(self).regen == old(self).regen,
            final(self).cooldown == old(self).cooldown,
    {
        self.damage = gameplay_mix_checksum(self.damage, slot as u64, bits as u64);
    }

    /// Observes a regeneration value with the given bit pattern.
    pub fn observe_regen(&mut self, slot: usize, bits: u32)
        ensures
            final(self).regen == mix_checksum(old(self).regen, slot as u64, bits as u64),
            final(self).velocity == old(self).velocity,
            final(self).damage == old(self).damage,
            final(self).cooldown == old(self).cooldown,
    {
        self.regen = gameplay_mix_checksum(self.regen, slot as u64, bits as u64);
    }

    /// Observes a cooldown.
    pub fn observe_cooldown(&mut self, slot: usize, cooldown: &Cooldown)
        ensures
            final(self).cooldown == mix_checksum(old(self).cooldown, slot as u64, cooldown.0 as u64),
            final(self).velocity == old(self).velocity,
            final(self).damage == old(self).damage,
            final(self).regen == old(self).regen,
    {
        self.cooldown = gameplay_mix_checksum(self.cooldown, slot as u64, cooldown.0 as u64);
    }
}

} // verus!
