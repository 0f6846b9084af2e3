//! The integer state of the gameplay reference model. For every logical
//! slot it holds the components the entity carries with their integer
//! values, its two tags and its generation; the phases of a frame change
//! that state, and the state folds into counts and checksums. Positions and
//! the float component values are kept beside it by the adapters.

use vstd::prelude::*;
use vstd::wrapping::u32_specs;

use super::components::Cooldown;
use super::components::Lifetime;
use super::gameplay::ai_trace_checksum;
use super::gameplay::gameplay_ai_trace_checksum;
use super::gameplay::gameplay_component_mask;
use super::gameplay::gameplay_entity_layout;
use super::gameplay::gameplay_mix_checksum;
use super::gameplay::layout_mask;
use super::gameplay::layout_of;
use super::gameplay::mix_checksum;
use super::gameplay::bit_if;
use super::gameplay::GameplayFrame;
use super::gameplay::GameplayLayout;
use super::gameplay::GameplayTrace;
use super::gameplay::GameplayTraceView;
use super::gameplay::is_standard_trace;
use super::gameplay::is_canonical_frame;
use super::gameplay::GAMEPLAY_FRAME_COUNT;
use super::gameplay::frame_add_stunned;
use super::gameplay::frame_ai_slots;
use super::gameplay::frame_recycle_projectiles;
use super::gameplay::frame_remove_stunned;
use super::gameplay::initially_stunned_spec;
use super::gameplay::lemma_layout_populations;
use super::gameplay::lemma_status_lasts_duration;
use super::gameplay::lemma_status_trace_consistent;
use super::gameplay::status_cohort_spec;
use super::gameplay::stunned_before_frame;
use super::gameplay::GAMEPLAY_AI_START;
use super::gameplay::GAMEPLAY_STATIC_START;
use super::gameplay::GAMEPLAY_STUNNED_COUNT;
use super::gameplay::GAMEPLAY_COMBAT_START;
use super::gameplay::GAMEPLAY_EFFECT_COUNT;
use super::gameplay::GAMEPLAY_EFFECT_START;
use super::gameplay::GAMEPLAY_ENTITY_COUNT;
use super::gameplay::GAMEPLAY_HEALTH_COUNT;
use super::gameplay::GAMEPLAY_LIFETIME_COUNT;
use super::gameplay::GAMEPLAY_MOVING_COUNT;
use super::gameplay::GAMEPLAY_PROJECTILE_COUNT;
use super::gameplay::GAMEPLAY_PROJECTILE_START;
use super::gameplay::GAMEPLAY_MASK_TAG_A;
use super::gameplay::GAMEPLAY_MASK_TAG_B;
use super::gameplay::GAMEPLAY_VARIANT_COUNT;

verus! {

/// The integer state of the entity in one logical slot.
#[derive(Clone, Copy, Debug, PartialEq, Eq)]
pub struct SlotState {
    pub layout: GameplayLayout,
    pub tag_a: bool,
    pub tag_b: bool,
    pub generation: u32,
}

/// The state of a freshly spawned entity in `slot`: the components of its
/// kind, tag A on variants 1 and 3, tag B on variants 2 and 3.
pub open spec fn fresh_state(slot: int, generation: u32, stunned: bool) -> SlotState {
    SlotState {
        layout: layout_of(slot, stunned),
        tag_a: slot % 4 == 1 || slot % 4 == 3,
        tag_b: slot % 4 == 2 || slot % 4 == 3,
        generation,
    }
}

/// The state of a freshly spawned entity in `slot`, which must lie inside
/// the population.
pub fn slot_state(slot: usize, generation: u32, stunned: bool) -> (r: SlotState)
    requires
        slot < GAMEPLAY_ENTITY_COUNT,
    ensures
        r == fresh_state(slot as int, generation, stunned),
{
    let variant = slot % GAMEPLAY_VARIANT_COUNT;
    SlotState {
        layout: gameplay_entity_layout(slot, stunned),
        tag_a: variant == 1 || variant == 3,
        tag_b: variant == 2 || variant == 3,
        generation,
    }
}

/// `n - 1`, but never below zero.
pub open spec fn saturating_dec(n: u32) -> u32 {
    if n == 0 {
        0
    } else {
        (n - 1) as u32
    }
}

/// One frame of lifetime: a lifetime counts down to zero; an effect (an
/// entity that does not move) whose lifetime reaches zero starts again at
/// 256.
pub open spec fn tick_lifetime(s: SlotState) -> SlotState {
    match s.layout.lifetime {
        Some(lifetime) => {
            let after = saturating_dec(lifetime.0);
            let after = if after == 0 && !s.layout.velocity {
                256u32
            } else {
                after
            };
            SlotState { layout: GameplayLayout { lifetime: Some(Lifetime(after)), ..s.layout }, ..s }
        },
        None => s,
    }
}

/// `s` with its cooldown counted down by one frame.
pub open spec fn tick_cooldown(s: SlotState) -> SlotState {
    match s.layout.cooldown {
        Some(cooldown) => SlotState {
            layout: GameplayLayout {
                cooldown: Some(Cooldown(saturating_dec(cooldown.0))),
                ..s.layout
            },
            ..s
        },
        None => s,
    }
}

/// `s` with its stun set to `stunned`.
pub open spec fn with_stunned(s: SlotState, stunned: bool) -> SlotState {
    SlotState { layout: GameplayLayout { stunned, ..s.layout }, ..s }
}

/// The target slot that `s` looks up.
pub open spec fn target_of(s: SlotState) -> usize {
    match s.layout.target {
        Some(target) => target.0 as usize,
        None => 0,
    }
}

/// The AI source phase over `slots`: each AI slot in turn counts its
/// cooldown down, records its target, and folds frame, slot, target and
/// cooldown into the trace checksum. The result is the new states, the
/// targets in order, and the new checksum.
pub open spec fn ai_phase(
    states: Seq<SlotState>,
    slots: Seq<usize>,
    frame: usize,
    checksum: u64,
) -> (Seq<SlotState>, Seq<usize>, u64)
    decreases slots.len(),
{
    if slots.len() == 0 {
        (states, Seq::empty(), checksum)
    } else {
        let (before, targets, c) = ai_phase(states, slots.drop_last(), frame, checksum);
        let slot = slots.last();
        let after = tick_cooldown(before[slot as int]);
        let target = target_of(after);
        let cooldown = match after.layout.cooldown {
            Some(cooldown) => cooldown.0,
            None => 0,
        };
        (
            before.update(slot as int, after),
            targets.push(target),
            ai_trace_checksum(c, frame, slot, target, cooldown),
        )
    }
}

/// The projectile recycle phase over `slots`: each slot in turn is
/// replaced by a fresh, unstunned entity of the next generation.
pub open spec fn recycle_phase(states: Seq<SlotState>, slots: Seq<usize>) -> Seq<SlotState>
    decreases slots.len(),
{
    if slots.len() == 0 {
        states
    } else {
        let before = recycle_phase(states, slots.drop_last());
        let slot = slots.last();
        before.update(
            slot as int,
            fresh_state(slot as int, u32_specs::wrapping_add(before[slot as int].generation, 1), false),
        )
    }
}

/// The lifetime phase: every lifetime counts down one frame.
pub open spec fn lifetime_phase(states: Seq<SlotState>) -> Seq<SlotState> {
    Seq::new(states.len(), |i: int| tick_lifetime(states[i]))
}

/// The status transition phase: the stuns after releasing `remove` and
/// then stunning `add`.
pub open spec fn status_phase(states: Seq<SlotState>, remove: Seq<usize>, add: Seq<usize>) -> Seq<
    SlotState,
> {
    let flags = status_transition(stunned_flags(states), remove, add)->0;
    Seq::new(states.len(), |i: int| with_stunned(states[i], flags[i]))
}

/// The status transition phase of frame `f` of the standard trace.
pub open spec fn standard_status_phase(states: Seq<SlotState>, f: int) -> Seq<SlotState> {
    status_phase(states, frame_remove_stunned(f), frame_add_stunned(f))
}

/// The stun flags of `states`.
pub open spec fn stunned_flags(states: Seq<SlotState>) -> Seq<bool> {
    Seq::new(states.len(), |i: int| states[i].layout.stunned)
}

/// Releasing `slots` in turn; `None` where a slot is outside the
/// population or not stunned when its turn comes.
pub open spec fn release_all(flags: Seq<bool>, slots: Seq<usize>) -> Option<Seq<bool>>
    decreases slots.len(),
{
    if slots.len() == 0 {
        Some(flags)
    } else {
        match release_all(flags, slots.drop_last()) {
            Some(before) => {
                let slot = slots.last() as int;
                if slot < before.len() && before[slot] {
                    Some(before.update(slot, false))
                } else {
                    None
                }
            },
            None => None,
        }
    }
}

/// Stunning `slots` in turn; `None` where a slot is outside the population
/// or already stunned when its turn comes.
pub open spec fn stun_all(flags: Seq<bool>, slots: Seq<usize>) -> Option<Seq<bool>>
    decreases slots.len(),
{
    if slots.len() == 0 {
        Some(flags)
    } else {
        match stun_all(flags, slots.drop_last()) {
            Some(before) => {
                let slot = slots.last() as int;
                if slot < before.len() && !before[slot] {
                    Some(before.update(slot, true))
                } else {
                    None
                }
            },
            None => None,
        }
    }
}

/// The status transition phase: release `remove`, then stun `add`; `None`
/// where a release finds no stun or a stun finds one already.
pub open spec fn status_transition(flags: Seq<bool>, remove: Seq<usize>, add: Seq<usize>) -> Option<
    Seq<bool>,
> {
    match release_all(flags, remove) {
        Some(released) => stun_all(released, add),
        None => None,
    }
}

/// The component mask of `s`, its tags taken from its own flags.
pub open spec fn state_mask(s: SlotState) -> u16 {
    layout_mask(s.layout, 0) | bit_if(s.tag_a, GAMEPLAY_MASK_TAG_A) | bit_if(
        s.tag_b,
        GAMEPLAY_MASK_TAG_B,
    )
}

/// The component mask of `s`.
pub fn slot_state_mask(s: &SlotState) -> (r: u16)
    ensures
        r == state_mask(*s),
{
    let mut mask = gameplay_component_mask(&s.layout, 0);
    if s.tag_a {
        mask = mask | GAMEPLAY_MASK_TAG_A;
    } else {
        mask = mask | 0;
    }
    if s.tag_b {
        mask = mask | GAMEPLAY_MASK_TAG_B;
    } else {
        mask = mask | 0;
    }
    mask
}

/// A failed release stays failed when more slots follow.
pub proof fn lemma_release_prefix(flags: Seq<bool>, slots: Seq<usize>, k: int)
    requires
        0 <= k <= slots.len(),
        release_all(flags, slots.subrange(0, k)) is None,
    ensures
        release_all(flags, slots) is None,
    decreases slots.len() - k,
{
    if k < slots.len() {
        assert(slots.subrange(0, k + 1).drop_last() =~= slots.subrange(0, k));
        lemma_release_prefix(flags, slots, k + 1);
    } else {
        assert(slots.subrange(0, k) =~= slots);
    }
}

/// A failed stun stays failed when more slots follow.
pub proof fn lemma_stun_prefix(flags: Seq<bool>, slots: Seq<usize>, k: int)
    requires
        0 <= k <= slots.len(),
        stun_all(flags, slots.subrange(0, k)) is None,
    ensures
        stun_all(flags, slots) is None,
    decreases slots.len() - k,
{
    if k < slots.len() {
        assert(slots.subrange(0, k + 1).drop_last() =~= slots.subrange(0, k));
        lemma_stun_prefix(flags, slots, k + 1);
    } else {
        assert(slots.subrange(0, k) =~= slots);
    }
}

/// The counts and integer checksums of the integer state of a population.
#[derive(Clone, Copy, Debug, PartialEq, Eq, Structural)]
pub struct StructuralDigest {
    pub moving_count: usize,
    pub health_count: usize,
    pub lifetime_count: usize,
    pub stunned_count: usize,
    pub component_mask_checksum: u64,
    pub cooldown_checksum: u64,
    pub lifetime_checksum: u64,
    pub target_slot_checksum: u64,
    pub owner_slot_checksum: u64,
    pub generation_checksum: u64,
}

/// One when `b` holds, else zero.
pub open spec fn count_if(b: bool) -> int {
    if b {
        1
    } else {
        0
    }
}

/// The digest of the first `n` states: the entities that move, have health,
/// have a lifetime or are stunned are counted, and the component mask, the
/// cooldown, lifetime, target and owner values and the generation of each
/// slot are folded into their checksums together with the slot.
pub open spec fn digest_of(states: Seq<SlotState>, n: int) -> StructuralDigest
    decreases n,
{
    if n <= 0 {
        StructuralDigest {
            moving_count: 0,
            health_count: 0,
            lifetime_count: 0,
            stunned_count: 0,
            component_mask_checksum: 0,
            cooldown_checksum: 0,
            lifetime_checksum: 0,
            target_slot_checksum: 0,
            owner_slot_checksum: 0,
            generation_checksum: 0,
        }
    } else {
        let d = digest_of(states, n - 1);
        let s = states[n - 1];
        let slot = (n - 1) as u64;
        StructuralDigest {
            moving_count: (d.moving_count + count_if(s.layout.velocity)) as usize,
            health_count: (d.health_count + count_if(s.layout.health)) as usize,
            lifetime_count: (d.lifetime_count + count_if(s.layout.lifetime is Some)) as usize,
            stunned_count: (d.stunned_count + count_if(s.layout.stunned)) as usize,
            component_mask_checksum: mix_checksum(d.component_mask_checksum, slot, state_mask(s) as u64),
            cooldown_checksum: match s.layout.cooldown {
                Some(c) => mix_checksum(d.cooldown_checksum, slot, c.0 as u64),
                None => d.cooldown_checksum,
            },
            lifetime_checksum: match s.layout.lifetime {
                Some(l) => mix_checksum(d.lifetime_checksum, slot, l.0 as u64),
                None => d.lifetime_checksum,
            },
            target_slot_checksum: match s.layout.target {
                Some(t) => mix_checksum(d.target_slot_checksum, slot, t.0 as u64),
                None => d.target_slot_checksum,
            },
            owner_slot_checksum: match s.layout.owner {
                Some(o) => mix_checksum(d.owner_slot_checksum, slot, o.0 as u64),
                None => d.owner_slot_checksum,
            },
            generation_checksum: mix_checksum(d.generation_checksum, slot, s.generation as u64),
        }
    }
}

/// The integer state of every slot of the gameplay population, with the
/// trace checksum of the AI source phases run so far.
pub struct GameplayState {
    states: Vec<SlotState>,
    cooldown_trace_checksum: u64,
}

/// The content of a [`GameplayState`].
pub struct GameplayStateView {
    pub states: Seq<SlotState>,
    pub cooldown_trace_checksum: u64,
}

impl View for GameplayState {
    type V = GameplayStateView;

    closed spec fn view(&self) -> GameplayStateView {
        GameplayStateView { states: self.states@, cooldown_trace_checksum: self.cooldown_trace_checksum }
    }
}

/// The states of a fresh population, stunned where `stunned` holds.
pub open spec fn initial_states(stunned: spec_fn(int) -> bool) -> Seq<SlotState> {
    Seq::new(GAMEPLAY_ENTITY_COUNT as nat, |i: int| fresh_state(i, 0, stunned(i)))
}

/// The slots of `stunned` are stunned.
pub open spec fn listed(stunned: Seq<usize>) -> spec_fn(int) -> bool {
    |i: int| stunned.contains(i as usize)
}

impl GameplayState {
    /// A fresh population whose slots in `initially_stunned` are stunned.
    /// Every listed slot must lie inside the population.
    pub fn new(initially_stunned: &[usize]) -> (r: GameplayState)
        requires
            forall|k: int|
                0 <= k < initially_stunned@.len() ==> #[trigger] initially_stunned@[k]
                    < GAMEPLAY_ENTITY_COUNT,
        ensures
            r@.states == initial_states(listed(initially_stunned@)),
            r@.cooldown_trace_checksum == 0,
    {
        let mut flags: Vec<bool> = Vec::new();
        let mut i: usize = 0;
        while i < GAMEPLAY_ENTITY_COUNT
            invariant
                i <= GAMEPLAY_ENTITY_COUNT,
                flags@ == Seq::new(i as nat, |j: int| false),
            decreases GAMEPLAY_ENTITY_COUNT - i,
        {
            flags.push(false);
            i = i + 1;
            assert(flags@ =~= Seq::new(i as nat, |j: int| false));
        }
        let mut k: usize = 0;
        while k < initially_stunned.len()
            invariant
                k <= initially_stunned@.len(),
                flags@.len() == GAMEPLAY_ENTITY_COUNT,
                forall|k2: int|
                    0 <= k2 < initially_stunned@.len() ==> #[trigger] initially_stunned@[k2]
                        < GAMEPLAY_ENTITY_COUNT,
                forall|j: int|
                    0 <= j < GAMEPLAY_ENTITY_COUNT ==> #[trigger] flags@[j]
                        == initially_stunned@.subrange(0, k as int).contains(j as usize),
            decreases initially_stunned@.len() - k,
        {
            let slot = initially_stunned[k];
            flags.set(slot, true);
            proof {
                assert forall|j: int| 0 <= j < GAMEPLAY_ENTITY_COUNT implies #[trigger] flags@[j]
                    == initially_stunned@.subrange(0, k + 1).contains(j as usize) by {
                    let before = initially_stunned@.subrange(0, k as int);
                    let after = initially_stunned@.subrange(0, k + 1);
                    assert(after =~= before.push(slot));
                    if before.contains(j as usize) {
                        let m = choose|m: int| 0 <= m < before.len() && before[m] == j as usize;
                        assert(after[m] == j as usize);
                    }
                    if after.contains(j as usize) && j != slot as int {
                        let m = choose|m: int| 0 <= m < after.len() && after[m] == j as usize;
                        assert(m < k);
                        assert(before[m] == j as usize);
                    }
                    if j == slot as int {
                        assert(after[k as int] == slot);
                    }
                }
            }
            k = k + 1;
        }
        let ghost listed_fn = listed(initially_stunned@);
        let mut states: Vec<SlotState> = Vec::new();
        let mut i: usize = 0;
        while i < GAMEPLAY_ENTITY_COUNT
            invariant
                i <= GAMEPLAY_ENTITY_COUNT,
                flags@.len() == GAMEPLAY_ENTITY_COUNT,
                listed_fn == listed(initially_stunned@),
                forall|j: int|
                    0 <= j < GAMEPLAY_ENTITY_COUNT ==> #[trigger] flags@[j]
                        == initially_stunned@.subrange(0, initially_stunned@.len() as int).contains(
                        j as usize,
                    ),
                states@ == initial_states(listed_fn).subrange(0, i as int),
            decreases GAMEPLAY_ENTITY_COUNT - i,
        {
            assert(initially_stunned@.subrange(0, initially_stunned@.len() as int)
                =~= initially_stunned@);
            assert(flags@[i as int] == listed_fn(i as int));
            states.push(slot_state(i, 0, flags[i]));
            i = i + 1;
            assert(states@ =~= initial_states(listed_fn).subrange(0, i as int));
        }
        assert(states@ =~= initial_states(listed_fn));
        GameplayState { states, cooldown_trace_checksum: 0 }
    }

    /// The state of `slot`.
    pub fn slot(&self, slot: usize) -> (r: SlotState)
        requires
            slot < self@.states.len(),
        ensures
            r == self@.states[slot as int],
    {
        self.states[slot]
    }

    /// The number of slots.
    pub fn len(&self) -> (r: usize)
        ensures
            r == self@.states.len(),
    {
        self.states.len()
    }

    /// The trace checksum of the AI source phases run so far.
    pub fn cooldown_trace_checksum(&self) -> (r: u64)
        ensures
            r == self@.cooldown_trace_checksum,
    {
        self.cooldown_trace_checksum
    }

    /// The lifetime part of the iteration phase: every lifetime counts down
    /// one frame.
    pub fn run_lifetime_phase(&mut self)
        ensures
            final(self)@.states.len() == old(self)@.states.len(),
            forall|i: int|
                0 <= i < old(self)@.states.len() ==> #[trigger] final(self)@.states[i]
                    == tick_lifetime(old(self)@.states[i]),
            final(self)@.cooldown_trace_checksum == old(self)@.cooldown_trace_checksum,
    {
        let n = self.states.len();
        let mut i: usize = 0;
        while i < n
            invariant
                n == self.states@.len(),
                n == old(self).states@.len(),
                i <= n,
                self.cooldown_trace_checksum == old(self).cooldown_trace_checksum,
                forall|j: int| 0 <= j < i ==> #[trigger] self.states@[j] == tick_lifetime(old(self).states@[j]),
                forall|j: int| i <= j < n ==> #[trigger] self.states@[j] == old(self).states@[j],
            decreases n - i,
        {
            let s = self.states[i];
            let ticked = match s.layout.lifetime {
                Some(lifetime) => {
                    let mut after = if lifetime.0 == 0 {
                        0
                    } else {
                        lifetime.0 - 1
                    };
                    if after == 0 && !s.layout.velocity {
                        after = 256;
                    }
                    SlotState {
                        layout: GameplayLayout { lifetime: Some(Lifetime(after)), ..s.layout },
                        ..s
                    }
                },
                None => s,
            };
            self.states.set(i, ticked);
            i = i + 1;
        }
    }

    /// The integer part of the AI source phase of `frame`: each AI slot
    /// counts its cooldown down and records its target, and the trace
    /// checksum folds them in. Returns the targets, in the order of the
    /// frame's AI slots. Every AI slot of the frame must lie inside the
    /// population and carry a target and a cooldown.
    pub fn run_ai_source_phase(&mut self, frame: &GameplayFrame) -> (targets: Vec<usize>)
        requires
            forall|k: int|
                0 <= k < frame.ai_slots@.len() ==> {
                    let slot = #[trigger] frame.ai_slots@[k];
                    &&& slot < old(self)@.states.len()
                    &&& old(self)@.states[slot as int].layout.target is Some
                    &&& old(self)@.states[slot as int].layout.cooldown is Some
                },
        ensures
            (final(self)@.states, targets@, final(self)@.cooldown_trace_checksum) == ai_phase(
                old(self)@.states,
                frame.ai_slots@,
                frame.index,
                old(self)@.cooldown_trace_checksum,
            ),
    {
        let ghost old_states = self.states@;
        let ghost old_checksum = self.cooldown_trace_checksum;
        let mut targets: Vec<usize> = Vec::new();
        let n = frame.ai_slots.len();
        let mut k: usize = 0;
        while k < n
            invariant
                n == frame.ai_slots@.len(),
                k <= n,
                old_states == old(self).states@,
                old_checksum == old(self).cooldown_trace_checksum,
                self.states@.len() == old_states.len(),
                forall|k2: int|
                    0 <= k2 < frame.ai_slots@.len() ==> {
                        let slot = #[trigger] frame.ai_slots@[k2];
                        &&& slot < old_states.len()
                        &&& old_states[slot as int].layout.target is Some
                        &&& old_states[slot as int].layout.cooldown is Some
                    },
                forall|j: int|
                    0 <= j < old_states.len() ==> (#[trigger] self.states@[j]).layout.target
                        == old_states[j].layout.target && (self.states@[j].layout.cooldown is Some)
                        == (old_states[j].layout.cooldown is Some),
                (self.states@, targets@, self.cooldown_trace_checksum) == ai_phase(
                    old_states,
                    frame.ai_slots@.subrange(0, k as int),
                    frame.index,
                    old_checksum,
                ),
            decreases n - k,
        {
            let slot = frame.ai_slots[k];
            let s = self.states[slot];
            let cooldown = match s.layout.cooldown {
                Some(c) => if c.0 == 0 {
                    0
                } else {
                    c.0 - 1
                },
                None => 0,
            };
            let target: usize = match s.layout.target {
                Some(t) => t.0 as usize,
                None => 0,
            };
            let after = SlotState {
                layout: GameplayLayout { cooldown: Some(Cooldown(cooldown)), ..s.layout },
                ..s
            };
            self.states.set(slot, after);
            targets.push(target);
            self.cooldown_trace_checksum = gameplay_ai_trace_checksum(
                self.cooldown_trace_checksum,
                frame.index,
                slot,
                target,
                cooldown,
            );
            assert(frame.ai_slots@.subrange(0, k + 1).drop_last() =~= frame.ai_slots@.subrange(
                0,
                k as int,
            ));
            k = k + 1;
        }
        assert(frame.ai_slots@.subrange(0, n as int) =~= frame.ai_slots@);
        targets
    }

    /// The integer part of the projectile recycle phase of `frame`: each
    /// recycled slot gets a fresh, unstunned entity of the next generation.
    /// Every recycled slot must lie inside the population.
    pub fn run_projectile_recycle_phase(&mut self, frame: &GameplayFrame)
        requires
            old(self)@.states.len() == GAMEPLAY_ENTITY_COUNT,
            forall|k: int|
                0 <= k < frame.recycle_projectiles@.len() ==> #[trigger] frame.recycle_projectiles@[k]
                    < GAMEPLAY_ENTITY_COUNT,
        ensures
            final(self)@.states == recycle_phase(old(self)@.states, frame.recycle_projectiles@),
            final(self)@.cooldown_trace_checksum == old(self)@.cooldown_trace_checksum,
    {
        let ghost old_states = self.states@;
        let n = frame.recycle_projectiles.len();
        let mut k: usize = 0;
        while k < n
            invariant
                n == frame.recycle_projectiles@.len(),
                k <= n,
                old_states == old(self).states@,
                old_states.len() == GAMEPLAY_ENTITY_COUNT,
                self.cooldown_trace_checksum == old(self).cooldown_trace_checksum,
                forall|k2: int|
                    0 <= k2 < frame.recycle_projectiles@.len() ==> #[trigger] frame.recycle_projectiles@[k2]
                        < GAMEPLAY_ENTITY_COUNT,
                self.states@ == recycle_phase(old_states, frame.recycle_projectiles@.subrange(0, k as int)),
                self.states@.len() == GAMEPLAY_ENTITY_COUNT,
            decreases n - k,
        {
            let slot = frame.recycle_projectiles[k];
            let generation = self.states[slot].generation.wrapping_add(1);
            let fresh = slot_state(slot, generation, false);
            self.states.set(slot, fresh);
            assert(frame.recycle_projectiles@.subrange(0, k + 1).drop_last()
                =~= frame.recycle_projectiles@.subrange(0, k as int));
            k = k + 1;
        }
        assert(frame.recycle_projectiles@.subrange(0, n as int) =~= frame.recycle_projectiles@);
    }

    /// Whether every AI slot of `frame` lies inside the population and
    /// carries a target and a cooldown, as the AI source phase needs.
    pub fn ai_source_phase_applies(&self, frame: &GameplayFrame) -> (r: bool)
        ensures
            r == forall|k: int|
                0 <= k < frame.ai_slots@.len() ==> {
                    let slot = #[trigger] frame.ai_slots@[k];
                    &&& slot < self@.states.len()
                    &&& self@.states[slot as int].layout.target is Some
                    &&& self@.states[slot as int].layout.cooldown is Some
                },
    {
        let n = frame.ai_slots.len();
        let mut k: usize = 0;
        while k < n
            invariant
                n == frame.ai_slots@.len(),
                k <= n,
                forall|j: int|
                    0 <= j < k ==> {
                        let slot = #[trigger] frame.ai_slots@[j];
                        &&& slot < self@.states.len()
                        &&& self@.states[slot as int].layout.target is Some
                        &&& self@.states[slot as int].layout.cooldown is Some
                    },
            decreases n - k,
        {
            let slot = frame.ai_slots[k];
            if slot >= self.states.len() || self.states[slot].layout.target.is_none()
                || self.states[slot].layout.cooldown.is_none() {
                return false;
            }
            k = k + 1;
        }
        true
    }

    /// Whether every recycled slot of `frame` lies inside the population,
    /// as the projectile recycle phase needs.
    pub fn projectile_recycle_phase_applies(&self, frame: &GameplayFrame) -> (r: bool)
        ensures
            r == (self@.states.len() == GAMEPLAY_ENTITY_COUNT && forall|k: int|
                0 <= k < frame.recycle_projectiles@.len() ==> #[trigger] frame.recycle_projectiles@[k]
                    < GAMEPLAY_ENTITY_COUNT),
    {
        if self.states.len() != GAMEPLAY_ENTITY_COUNT {
            return false;
        }
        let n = frame.recycle_projectiles.len();
        let mut k: usize = 0;
        while k < n
            invariant
                n == frame.recycle_projectiles@.len(),
                k <= n,
                forall|j: int| 0 <= j < k ==> #[trigger] frame.recycle_projectiles@[j] < GAMEPLAY_ENTITY_COUNT,
            decreases n - k,
        {
            if frame.recycle_projectiles[k] >= GAMEPLAY_ENTITY_COUNT {
                return false;
            }
            k = k + 1;
        }
        true
    }

    /// Whether every slot of `initially_stunned` lies inside the population,
    /// as [`GameplayState::new`] needs.
    pub fn stun_list_fits(initially_stunned: &[usize]) -> (r: bool)
        ensures
            r == forall|k: int|
                0 <= k < initially_stunned@.len() ==> #[trigger] initially_stunned@[k]
                    < GAMEPLAY_ENTITY_COUNT,
    {
        let n = initially_stunned.len();
        let mut k: usize = 0;
        while k < n
            invariant
                n == initially_stunned@.len(),
                k <= n,
                forall|j: int| 0 <= j < k ==> #[trigger] initially_stunned@[j] < GAMEPLAY_ENTITY_COUNT,
            decreases n - k,
        {
            if initially_stunned[k] >= GAMEPLAY_ENTITY_COUNT {
                return false;
            }
            k = k + 1;
        }
        true
    }

    /// Whether the status transition phase of `frame` finds every released
    /// slot stunned and every newly stunned slot free, each in its turn.
    pub fn status_transition_applies(&self, frame: &GameplayFrame) -> (r: bool)
        ensures
            r == status_transition(
                stunned_flags(self@.states),
                frame.remove_stunned@,
                frame.add_stunned@,
            ) is Some,
    {
        let ghost start = stunned_flags(self.states@);
        let n = self.states.len();
        let mut flags: Vec<bool> = Vec::new();
        let mut i: usize = 0;
        while i < n
            invariant
                n == self.states@.len(),
                start == stunned_flags(self.states@),
                i <= n,
                flags@ == start.subrange(0, i as int),
            decreases n - i,
        {
            flags.push(self.states[i].layout.stunned);
            i = i + 1;
            assert(flags@ =~= start.subrange(0, i as int));
        }
        assert(flags@ =~= start);
        let remove = &frame.remove_stunned;
        let mut k: usize = 0;
        while k < remove.len()
            invariant
                remove@ == frame.remove_stunned@,
                k <= remove@.len(),
                flags@.len() == n,
                start == stunned_flags(self@.states),
                release_all(start, remove@.subrange(0, k as int)) == Some(flags@),
            decreases remove@.len() - k,
        {
            assert(remove@.subrange(0, k + 1).drop_last() =~= remove@.subrange(0, k as int));
            let slot = remove[k];
            if slot >= n || !flags[slot] {
                proof {
                    let prefix = remove@.subrange(0, k + 1);
                    assert(prefix.last() == slot);
                    assert(release_all(start, prefix.drop_last()) == Some(flags@));
                    assert(release_all(start, prefix) is None);
                    lemma_release_prefix(start, remove@, k + 1);
                }
                return false;
            }
            flags.set(slot, false);
            k = k + 1;
        }
        assert(remove@.subrange(0, remove@.len() as int) =~= remove@);
        let ghost released = flags@;
        let add = &frame.add_stunned;
        let mut k: usize = 0;
        while k < add.len()
            invariant
                add@ == frame.add_stunned@,
                remove@ == frame.remove_stunned@,
                k <= add@.len(),
                flags@.len() == n,
                start == stunned_flags(self@.states),
                release_all(start, frame.remove_stunned@) == Some(released),
                stun_all(released, add@.subrange(0, k as int)) == Some(flags@),
            decreases add@.len() - k,
        {
            assert(add@.subrange(0, k + 1).drop_last() =~= add@.subrange(0, k as int));
            let slot = add[k];
            if slot >= n || flags[slot] {
                proof {
                    lemma_stun_prefix(released, add@, k + 1);
                }
                return false;
            }
            flags.set(slot, true);
            k = k + 1;
        }
        assert(add@.subrange(0, add@.len() as int) =~= add@);
        true
    }

    /// The status transition phase of `frame`: its released slots lose
    /// their stun, then its stunned slots gain one. Every release must find
    /// a stun and every stun a free slot, each in its turn.
    pub fn run_status_transition_phase(&mut self, frame: &GameplayFrame)
        requires
            status_transition(
                stunned_flags(old(self)@.states),
                frame.remove_stunned@,
                frame.add_stunned@,
            ) is Some,
        ensures
            ({
                let flags = status_transition(
                    stunned_flags(old(self)@.states),
                    frame.remove_stunned@,
                    frame.add_stunned@,
                )->0;
                &&& final(self)@.states.len() == old(self)@.states.len()
                &&& forall|i: int|
                    0 <= i < old(self)@.states.len() ==> #[trigger] final(self)@.states[i]
                        == with_stunned(old(self)@.states[i], flags[i])
            }),
            final(self)@.cooldown_trace_checksum == old(self)@.cooldown_trace_checksum,
    {
        let ghost start = stunned_flags(self.states@);
        let ghost old_states = self.states@;
        let n = self.states.len();
        let remove = &frame.remove_stunned;
        proof {
            if release_all(start, remove@) is None {
                assert(status_transition(start, remove@, frame.add_stunned@) is None);
            }
            assert(remove@.subrange(0, remove@.len() as int) =~= remove@);
        }
        let mut k: usize = 0;
        while k < remove.len()
            invariant
                remove@ == frame.remove_stunned@,
                k <= remove@.len(),
                n == self.states@.len(),
                n == old_states.len(),
                old_states == old(self).states@,
                start == stunned_flags(old_states),
                self.cooldown_trace_checksum == old(self).cooldown_trace_checksum,
                release_all(start, remove@) is Some,
                release_all(start, remove@.subrange(0, k as int)) == Some(stunned_flags(self.states@)),
                forall|j: int|
                    0 <= j < n ==> #[trigger] self.states@[j] == with_stunned(
                        old_states[j],
                        self.states@[j].layout.stunned,
                    ),
            decreases remove@.len() - k,
        {
            assert(remove@.subrange(0, k + 1).drop_last() =~= remove@.subrange(0, k as int));
            proof {
                if release_all(start, remove@.subrange(0, k + 1)) is None {
                    lemma_release_prefix(start, remove@, k + 1);
                }
            }
            let slot = remove[k];
            let s = self.states[slot];
            self.states.set(slot, SlotState { layout: GameplayLayout { stunned: false, ..s.layout }, ..s });
            k = k + 1;
            assert(stunned_flags(self.states@) =~= release_all(start, remove@.subrange(0, k as int))->0);
        }
        let ghost released = stunned_flags(self.states@);
        let add = &frame.add_stunned;
        proof {
            assert(add@.subrange(0, add@.len() as int) =~= add@);
            assert(add@.subrange(0, 0) =~= Seq::<usize>::empty());
        }
        let mut k: usize = 0;
        while k < add.len()
            invariant
                add@ == frame.add_stunned@,
                remove@ == frame.remove_stunned@,
                k <= add@.len(),
                n == self.states@.len(),
                n == old_states.len(),
                old_states == old(self).states@,
                start == stunned_flags(old_states),
                self.cooldown_trace_checksum == old(self).cooldown_trace_checksum,
                status_transition(start, remove@, add@) == stun_all(released, add@),
                stun_all(released, add@) is Some,
                stun_all(released, add@.subrange(0, k as int)) == Some(stunned_flags(self.states@)),
                forall|j: int|
                    0 <= j < n ==> #[trigger] self.states@[j] == with_stunned(
                        old_states[j],
                        self.states@[j].layout.stunned,
                    ),
            decreases add@.len() - k,
        {
            assert(add@.subrange(0, k + 1).drop_last() =~= add@.subrange(0, k as int));
            proof {
                if stun_all(released, add@.subrange(0, k + 1)) is None {
                    lemma_stun_prefix(released, add@, k + 1);
                }
            }
            let slot = add[k];
            let s = self.states[slot];
            self.states.set(slot, SlotState { layout: GameplayLayout { stunned: true, ..s.layout }, ..s });
            k = k + 1;
            assert(stunned_flags(self.states@) =~= stun_all(released, add@.subrange(0, k as int))->0);
        }
        assert(stunned_flags(self.states@) =~= stun_all(released, add@)->0);
    }

    /// The counts and integer checksums of the state.
    pub fn digest(&self) -> (r: StructuralDigest)
        ensures
            r == digest_of(self@.states, self@.states.len() as int),
    {
        let n = self.states.len();
        let ghost states = self.states@;
        let mut d = StructuralDigest {
            moving_count: 0,
            health_count: 0,
            lifetime_count: 0,
            stunned_count: 0,
            component_mask_checksum: 0,
            cooldown_checksum: 0,
            lifetime_checksum: 0,
            target_slot_checksum: 0,
            owner_slot_checksum: 0,
            generation_checksum: 0,
        };
        let mut i: usize = 0;
        while i < n
            invariant
                n == self.states@.len(),
                states == self.states@,
                i <= n,
                d == digest_of(states, i as int),
                d.moving_count <= i,
                d.health_count <= i,
                d.lifetime_count <= i,
                d.stunned_count <= i,
            decreases n - i,
        {
            let s = self.states[i];
            let slot = i as u64;
            if s.layout.velocity {
                d.moving_count = d.moving_count + 1;
            }
            if s.layout.health {
                d.health_count = d.health_count + 1;
            }
            if s.layout.lifetime.is_some() {
                d.lifetime_count = d.lifetime_count + 1;
            }
            if s.layout.stunned {
                d.stunned_count = d.stunned_count + 1;
            }
            let mask = slot_state_mask(&s);
            d.component_mask_checksum = gameplay_mix_checksum(d.component_mask_checksum, slot, mask as u64);
            if let Some(c) = s.layout.cooldown {
                d.cooldown_checksum = gameplay_mix_checksum(d.cooldown_checksum, slot, c.0 as u64);
            }
            if let Some(l) = s.layout.lifetime {
                d.lifetime_checksum = gameplay_mix_checksum(d.lifetime_checksum, slot, l.0 as u64);
            }
            if let Some(t) = s.layout.target {
                d.target_slot_checksum = gameplay_mix_checksum(d.target_slot_checksum, slot, t.0 as u64);
            }
            if let Some(o) = s.layout.owner {
                d.owner_slot_checksum = gameplay_mix_checksum(d.owner_slot_checksum, slot, o.0 as u64);
            }
            d.generation_checksum = gameplay_mix_checksum(d.generation_checksum, slot, s.generation as u64);
            i = i + 1;
        }
        d
    }


}

/// `s` carries the components of `slot`'s kind, with the target and owner
/// of the slot, and the tags of its variant: the phases of a frame change
/// only lifetimes, cooldowns, stuns and generations.
pub open spec fn keeps_layout(s: SlotState, slot: int) -> bool {
    let l = layout_of(slot, false);
    &&& s.layout.velocity == l.velocity
    &&& s.layout.health == l.health
    &&& s.layout.damage == l.damage
    &&& s.layout.regen == l.regen
    &&& s.layout.enemy == l.enemy
    &&& s.layout.ally == l.ally
    &&& (s.layout.lifetime is Some) == (l.lifetime is Some)
    &&& s.layout.target == l.target
    &&& (s.layout.cooldown is Some) == (l.cooldown is Some)
    &&& s.layout.owner == l.owner
    &&& s.tag_a == (slot % 4 == 1 || slot % 4 == 3)
    &&& s.tag_b == (slot % 4 == 2 || slot % 4 == 3)
}

/// A whole population, every slot of which keeps its layout.
pub open spec fn sound(states: Seq<SlotState>) -> bool {
    &&& states.len() == GAMEPLAY_ENTITY_COUNT
    &&& forall|i: int| 0 <= i < states.len() ==> #[trigger] keeps_layout(states[i], i)
}

/// A fresh population is sound, whichever slots are stunned.
pub proof fn lemma_initial_sound(stunned: spec_fn(int) -> bool)
    ensures
        sound(initial_states(stunned)),
{
}

/// Counting lifetimes down keeps every layout.
pub proof fn lemma_lifetime_phase_sound(states: Seq<SlotState>, after: Seq<SlotState>)
    requires
        sound(states),
        after.len() == states.len(),
        forall|i: int| 0 <= i < states.len() ==> #[trigger] after[i] == tick_lifetime(states[i]),
    ensures
        sound(after),
{
    assert forall|i: int| 0 <= i < after.len() implies #[trigger] keeps_layout(after[i], i) by {
        assert(keeps_layout(states[i], i));
    }
}

/// The AI source phase keeps the population's size.
pub proof fn lemma_ai_phase_len(states: Seq<SlotState>, slots: Seq<usize>, frame: usize, checksum: u64)
    requires
        forall|k: int| 0 <= k < slots.len() ==> #[trigger] slots[k] < states.len(),
    ensures
        ai_phase(states, slots, frame, checksum).0.len() == states.len(),
    decreases slots.len(),
{
    if slots.len() > 0 {
        lemma_ai_phase_len(states, slots.drop_last(), frame, checksum);
        assert(slots.drop_last().len() < slots.len());
        assert(slots[slots.len() - 1] < states.len());
    }
}

/// The AI source phase keeps every layout and changes no stun.
pub proof fn lemma_ai_phase_sound(states: Seq<SlotState>, slots: Seq<usize>, frame: usize, checksum: u64)
    requires
        sound(states),
        forall|k: int| 0 <= k < slots.len() ==> #[trigger] slots[k] < states.len(),
    ensures
        sound(ai_phase(states, slots, frame, checksum).0),
        stunned_flags(ai_phase(states, slots, frame, checksum).0) == stunned_flags(states),
    decreases slots.len(),
{
    if slots.len() > 0 {
        let shorter = slots.drop_last();
        lemma_ai_phase_sound(states, shorter, frame, checksum);
        let before = ai_phase(states, shorter, frame, checksum).0;
        let slot = slots.last() as int;
        assert(keeps_layout(before[slot], slot));
        let after = ai_phase(states, slots, frame, checksum).0;
        assert forall|i: int| 0 <= i < after.len() implies #[trigger] keeps_layout(after[i], i) by {
            assert(keeps_layout(before[i], i));
        }
        assert(stunned_flags(after) =~= stunned_flags(before));
    }
}

/// Changing stuns keeps every layout.
pub proof fn lemma_status_phase_sound(states: Seq<SlotState>, flags: Seq<bool>, after: Seq<SlotState>)
    requires
        sound(states),
        flags.len() == states.len(),
        after.len() == states.len(),
        forall|i: int|
            0 <= i < states.len() ==> #[trigger] after[i] == with_stunned(states[i], flags[i]),
    ensures
        sound(after),
        stunned_flags(after) == flags,
{
    assert forall|i: int| 0 <= i < after.len() implies #[trigger] keeps_layout(after[i], i) by {
        assert(keeps_layout(states[i], i));
    }
    assert(stunned_flags(after) =~= flags);
}

/// Recycling slots keeps every layout; a recycled slot is unstunned and
/// every other keeps its stun.
pub proof fn lemma_recycle_phase_sound(states: Seq<SlotState>, slots: Seq<usize>)
    requires
        sound(states),
        forall|k: int| 0 <= k < slots.len() ==> #[trigger] slots[k] < states.len(),
    ensures
        sound(recycle_phase(states, slots)),
        forall|i: int|
            0 <= i < states.len() ==> #[trigger] stunned_flags(recycle_phase(states, slots))[i] == (
            stunned_flags(states)[i] && !slots.contains(i as usize)),
    decreases slots.len(),
{
    if slots.len() > 0 {
        let shorter = slots.drop_last();
        lemma_recycle_phase_sound(states, shorter);
        let before = recycle_phase(states, shorter);
        let after = recycle_phase(states, slots);
        let slot = slots.last() as int;
        assert forall|i: int| 0 <= i < after.len() implies #[trigger] keeps_layout(after[i], i) by {
            assert(keeps_layout(before[i], i));
        }
        assert forall|i: int| 0 <= i < states.len() implies #[trigger] stunned_flags(after)[i] == (
        stunned_flags(states)[i] && !slots.contains(i as usize)) by {
            assert(stunned_flags(before)[i] == (stunned_flags(states)[i] && !shorter.contains(
                i as usize,
            )));
            if shorter.contains(i as usize) {
                let m = choose|m: int| 0 <= m < shorter.len() && shorter[m] == i as usize;
                assert(slots[m] == i as usize);
            }
            if slots.contains(i as usize) && i != slot {
                let m = choose|m: int| 0 <= m < slots.len() && slots[m] == i as usize;
                assert(m < slots.len() - 1);
                assert(shorter[m] == i as usize);
            }
            if i == slot {
                assert(slots[slots.len() - 1] == i as usize);
            }
        }
    }
}

/// The count of the first `n` slots of a sound population that move, have
/// health and have a lifetime: the slot ranges of the layout, cut at `n`.
pub proof fn lemma_digest_counts_prefix(states: Seq<SlotState>, n: int)
    requires
        sound(states),
        0 <= n <= GAMEPLAY_ENTITY_COUNT,
    ensures
        digest_of(states, n).moving_count == if n < GAMEPLAY_MOVING_COUNT {
            n
        } else {
            GAMEPLAY_MOVING_COUNT as int
        },
        digest_of(states, n).health_count == if n < GAMEPLAY_COMBAT_START {
            0
        } else if n < GAMEPLAY_COMBAT_START + GAMEPLAY_HEALTH_COUNT {
            n - GAMEPLAY_COMBAT_START
        } else {
            GAMEPLAY_HEALTH_COUNT as int
        },
        digest_of(states, n).lifetime_count == (if n < GAMEPLAY_PROJECTILE_START {
            0
        } else if n < GAMEPLAY_PROJECTILE_START + GAMEPLAY_PROJECTILE_COUNT {
            n - GAMEPLAY_PROJECTILE_START
        } else {
            GAMEPLAY_PROJECTILE_COUNT as int
        }) + (if n < GAMEPLAY_EFFECT_START {
            0
        } else {
            n - GAMEPLAY_EFFECT_START
        }),
    decreases n,
{
    if n > 0 {
        lemma_digest_counts_prefix(states, n - 1);
        lemma_layout_populations(n - 1, false);
        assert(keeps_layout(states[n - 1], n - 1));
    }
}

/// The published population counts hold of every sound population: the
/// phases of a frame never change how many entities move, have health or
/// have a lifetime.
pub proof fn lemma_sound_digest_counts(states: Seq<SlotState>)
    requires
        sound(states),
    ensures
        digest_of(states, states.len() as int).moving_count == GAMEPLAY_MOVING_COUNT,
        digest_of(states, states.len() as int).health_count == GAMEPLAY_HEALTH_COUNT,
        digest_of(states, states.len() as int).lifetime_count == GAMEPLAY_LIFETIME_COUNT,
{
    lemma_digest_counts_prefix(states, GAMEPLAY_ENTITY_COUNT as int);
    lemma_layout_populations(0, false);
}

/// Releasing distinct stunned slots in turn never fails, and frees
/// exactly those slots.
pub proof fn lemma_release_distinct(flags: Seq<bool>, slots: Seq<usize>)
    requires
        flags.len() <= usize::MAX,
        slots.no_duplicates(),
        forall|k: int| 0 <= k < slots.len() ==> #[trigger] slots[k] < flags.len(),
        forall|k: int| 0 <= k < slots.len() ==> flags[#[trigger] slots[k] as int],
    ensures
        release_all(flags, slots) == Some(
            Seq::new(flags.len(), |x: int| flags[x] && !slots.contains(x as usize)),
        ),
    decreases slots.len(),
{
    if slots.len() > 0 {
        let shorter = slots.drop_last();
        let slot = slots.last();
        assert forall|k: int| 0 <= k < shorter.len() implies flags[#[trigger] shorter[k] as int] by {
            assert(shorter[k] == slots[k]);
        }
        lemma_release_distinct(flags, shorter);
        let before = Seq::new(flags.len(), |x: int| flags[x] && !shorter.contains(x as usize));
        assert(!shorter.contains(slot)) by {
            if shorter.contains(slot) {
                let m = choose|m: int| 0 <= m < shorter.len() && shorter[m] == slot;
                assert(slots[m] == slots[slots.len() - 1]);
            }
        }
        assert(slots[slots.len() - 1] == slot);
        assert(before[slot as int]);
        let expected = Seq::new(flags.len(), |x: int| flags[x] && !slots.contains(x as usize));
        assert(before.update(slot as int, false) =~= expected) by {
            assert forall|x: int| 0 <= x < flags.len() implies #[trigger] before.update(
                slot as int,
                false,
            )[x] == expected[x] by {
                if slots.contains(x as usize) && x != slot as int {
                    let m = choose|m: int| 0 <= m < slots.len() && slots[m] == x as usize;
                    assert(m != slots.len() - 1);
                    assert(shorter[m] == x as usize);
                }
                if shorter.contains(x as usize) {
                    let m = choose|m: int| 0 <= m < shorter.len() && shorter[m] == x as usize;
                    assert(slots[m] == x as usize);
                }
            }
        }
    } else {
        assert(Seq::new(flags.len(), |x: int| flags[x] && !slots.contains(x as usize)) =~= flags);
    }
}

/// Stunning distinct free slots in turn never fails, and stuns exactly
/// those slots.
pub proof fn lemma_stun_distinct(flags: Seq<bool>, slots: Seq<usize>)
    requires
        flags.len() <= usize::MAX,
        slots.no_duplicates(),
        forall|k: int| 0 <= k < slots.len() ==> #[trigger] slots[k] < flags.len(),
        forall|k: int| 0 <= k < slots.len() ==> !flags[#[trigger] slots[k] as int],
    ensures
        stun_all(flags, slots) == Some(
            Seq::new(flags.len(), |x: int| flags[x] || slots.contains(x as usize)),
        ),
    decreases slots.len(),
{
    if slots.len() > 0 {
        let shorter = slots.drop_last();
        let slot = slots.last();
        assert forall|k: int| 0 <= k < shorter.len() implies !flags[#[trigger] shorter[k] as int] by {
            assert(shorter[k] == slots[k]);
        }
        lemma_stun_distinct(flags, shorter);
        let before = Seq::new(flags.len(), |x: int| flags[x] || shorter.contains(x as usize));
        assert(!shorter.contains(slot)) by {
            if shorter.contains(slot) {
                let m = choose|m: int| 0 <= m < shorter.len() && shorter[m] == slot;
                assert(slots[m] == slots[slots.len() - 1]);
            }
        }
        assert(slots[slots.len() - 1] == slot);
        assert(!before[slot as int]);
        let expected = Seq::new(flags.len(), |x: int| flags[x] || slots.contains(x as usize));
        assert(before.update(slot as int, true) =~= expected) by {
            assert forall|x: int| 0 <= x < flags.len() implies #[trigger] before.update(
                slot as int,
                true,
            )[x] == expected[x] by {
                if slots.contains(x as usize) && x != slot as int {
                    let m = choose|m: int| 0 <= m < slots.len() && slots[m] == x as usize;
                    assert(m != slots.len() - 1);
                    assert(shorter[m] == x as usize);
                }
                if shorter.contains(x as usize) {
                    let m = choose|m: int| 0 <= m < shorter.len() && shorter[m] == x as usize;
                    assert(slots[m] == x as usize);
                }
            }
        }
    } else {
        assert(Seq::new(flags.len(), |x: int| flags[x] || slots.contains(x as usize)) =~= flags);
    }
}

/// A status cohort lists distinct combat slots.
proof fn lemma_status_cohort_distinct(c: int)
    requires
        0 <= c < 16,
    ensures
        status_cohort_spec(c).no_duplicates(),
        forall|k: int|
            0 <= k < status_cohort_spec(c).len() ==> #[trigger] status_cohort_spec(c)[k]
                < GAMEPLAY_ENTITY_COUNT,
{
}

/// The stuns of a fresh population from the standard initial stun list
/// are the stuns before frame 0.
pub proof fn lemma_initial_stuns()
    ensures
        forall|x: int|
            0 <= x < GAMEPLAY_ENTITY_COUNT ==> #[trigger] stunned_flags(
                initial_states(listed(initially_stunned_spec())),
            )[x] == stunned_before_frame(0, x),
{
    assert forall|x: int| 0 <= x < GAMEPLAY_ENTITY_COUNT implies #[trigger] stunned_flags(
        initial_states(listed(initially_stunned_spec())),
    )[x] == stunned_before_frame(0, x) by {
        lemma_status_trace_consistent(0, x);
    }
}

/// Along the standard trace the stun bookkeeping never fails: where the
/// stuns are those before frame `f`, the status transition of frame `f`
/// finds every released slot stunned and every newly stunned slot free,
/// and leaves the stuns before frame `f + 1`.
pub proof fn lemma_standard_status_transition(flags: Seq<bool>, f: int)
    requires
        0 <= f,
        flags.len() == GAMEPLAY_ENTITY_COUNT,
        forall|x: int| 0 <= x < GAMEPLAY_ENTITY_COUNT ==> #[trigger] flags[x] == stunned_before_frame(f, x),
    ensures
        status_transition(flags, frame_remove_stunned(f), frame_add_stunned(f)) matches Some(after)
            && after.len() == GAMEPLAY_ENTITY_COUNT && forall|x: int|
            0 <= x < GAMEPLAY_ENTITY_COUNT ==> #[trigger] after[x] == stunned_before_frame(f + 1, x),
{
    let remove = frame_remove_stunned(f);
    let add = frame_add_stunned(f);
    lemma_status_cohort_distinct((f + 8) % 16);
    lemma_status_cohort_distinct(f % 16);
    lemma_status_lasts_duration(f);
    assert forall|k: int| 0 <= k < remove.len() implies flags[#[trigger] remove[k] as int] by {
        lemma_status_trace_consistent(f, remove[k] as int);
        assert(remove.contains(remove[k]));
    }
    lemma_release_distinct(flags, remove);
    let released = Seq::new(flags.len(), |x: int| flags[x] && !remove.contains(x as usize));
    assert forall|k: int| 0 <= k < add.len() implies !released[#[trigger] add[k] as int] by {
        lemma_status_trace_consistent(f, add[k] as int);
        assert(add.contains(add[k]));
    }
    lemma_stun_distinct(released, add);
    let after = Seq::new(released.len(), |x: int| released[x] || add.contains(x as usize));
    assert forall|x: int| 0 <= x < GAMEPLAY_ENTITY_COUNT implies #[trigger] after[x]
        == stunned_before_frame(f + 1, x) by {
        lemma_status_trace_consistent(f, x);
    }
}

/// One frame of the standard trace on a sound population whose stuns are
/// those before frame `f`: lifetimes count down, the AI source phase finds
/// a target and a cooldown at each of its slots, the status transition
/// applies, and the recycled slots lie inside the population; afterwards
/// the population is sound and its stuns are those before frame `f + 1`.
pub proof fn lemma_standard_frame(states: Seq<SlotState>, f: usize, checksum: u64)
    requires
        sound(states),
        forall|x: int|
            0 <= x < GAMEPLAY_ENTITY_COUNT ==> #[trigger] stunned_flags(states)[x]
                == stunned_before_frame(f as int, x),
    ensures
        ({
            let ticked = lifetime_phase(states);
            let acted = ai_phase(ticked, frame_ai_slots(f as int), f, checksum).0;
            let changed = standard_status_phase(acted, f as int);
            let recycled = recycle_phase(changed, frame_recycle_projectiles(f as int));
            &&& forall|k: int|
                0 <= k < frame_ai_slots(f as int).len() ==> {
                    let slot = #[trigger] frame_ai_slots(f as int)[k];
                    &&& slot < ticked.len()
                    &&& ticked[slot as int].layout.target is Some
                    &&& ticked[slot as int].layout.cooldown is Some
                }
            &&& status_transition(
                stunned_flags(acted),
                frame_remove_stunned(f as int),
                frame_add_stunned(f as int),
            ) is Some
            &&& forall|k: int|
                0 <= k < frame_recycle_projectiles(f as int).len() ==> #[trigger] frame_recycle_projectiles(
                    f as int,
                )[k] < GAMEPLAY_ENTITY_COUNT
            &&& sound(recycled)
            &&& forall|x: int|
                0 <= x < GAMEPLAY_ENTITY_COUNT ==> #[trigger] stunned_flags(recycled)[x]
                    == stunned_before_frame(f + 1, x)
        }),
{
    let ticked = lifetime_phase(states);
    lemma_lifetime_phase_sound(states, ticked);
    assert(stunned_flags(ticked) =~= stunned_flags(states));
    let ai_slots = frame_ai_slots(f as int);
    assert forall|k: int| 0 <= k < ai_slots.len() implies {
        let slot = #[trigger] ai_slots[k];
        &&& slot < ticked.len()
        &&& ticked[slot as int].layout.target is Some
        &&& ticked[slot as int].layout.cooldown is Some
    } by {
        let slot = ai_slots[k] as int;
        assert(GAMEPLAY_AI_START <= slot < GAMEPLAY_PROJECTILE_START);
        assert(keeps_layout(ticked[slot], slot));
    }
    lemma_ai_phase_sound(ticked, ai_slots, f, checksum);
    let acted = ai_phase(ticked, ai_slots, f, checksum).0;
    lemma_standard_status_transition(stunned_flags(acted), f as int);
    let flags = status_transition(
        stunned_flags(acted),
        frame_remove_stunned(f as int),
        frame_add_stunned(f as int),
    )->0;
    let changed = standard_status_phase(acted, f as int);
    lemma_status_phase_sound(acted, flags, changed);
    let recycled_slots = frame_recycle_projectiles(f as int);
    assert forall|k: int| 0 <= k < recycled_slots.len() implies #[trigger] recycled_slots[k]
        < GAMEPLAY_ENTITY_COUNT by {
        assert(GAMEPLAY_PROJECTILE_START <= recycled_slots[k] < GAMEPLAY_STATIC_START);
    }
    lemma_recycle_phase_sound(changed, recycled_slots);
    let recycled = recycle_phase(changed, recycled_slots);
    assert forall|x: int| 0 <= x < GAMEPLAY_ENTITY_COUNT implies #[trigger] stunned_flags(recycled)[x]
        == stunned_before_frame(f + 1, x) by {
        if recycled_slots.contains(x as usize) {
            let m = choose|m: int| 0 <= m < recycled_slots.len() && recycled_slots[m] == x as usize;
            assert(GAMEPLAY_PROJECTILE_START <= recycled_slots[m]);
        }
    }
}

/// A frame of lifetime changes nothing but the lifetime: an entity without
/// one is unchanged, a moving entity's lifetime counts down by one and
/// stays at zero, and an effect's lifetime, once between 1 and 256, stays
/// there forever.
pub proof fn lemma_lifetime_tick(s: SlotState)
    ensures
        s.layout.lifetime is None ==> tick_lifetime(s) == s,
        s.layout.lifetime is Some ==> tick_lifetime(s) == (SlotState {
            layout: (GameplayLayout { lifetime: tick_lifetime(s).layout.lifetime, ..s.layout }),
            ..s
        }),
        s.layout.lifetime matches Some(l) ==> (s.layout.velocity ==> tick_lifetime(
            s,
        ).layout.lifetime == Some(Lifetime(saturating_dec(l.0)))),
        s.layout.lifetime matches Some(l) ==> (!s.layout.velocity && 1 <= l.0 <= 256 ==> (
        tick_lifetime(s).layout.lifetime matches Some(m) && 1 <= m.0 <= 256)),
{
}

/// The number of slots below `n` that are stunned before frame `f`.
pub open spec fn stunned_below(f: int, n: int) -> int
    decreases n,
{
    if n <= 0 {
        0
    } else {
        stunned_below(f, n - 1) + count_if(stunned_before_frame(f, n - 1))
    }
}

/// Among the first `k` positions of a block of 16 status cohorts, those
/// stunned when the stun rotation stands at `r`.
spec fn block_prefix_stuns(r: int, k: int) -> int
    decreases k,
{
    if k <= 0 {
        0
    } else {
        block_prefix_stuns(r, k - 1) + count_if((k - 1 - r) % 16 >= 8)
    }
}

/// Whatever the rotation, 8 of every 16 consecutive status cohorts are
/// stunned.
proof fn lemma_block_stuns(r: int)
    requires
        0 <= r < 16,
    ensures
        block_prefix_stuns(r, 16) == 8,
{
    reveal_with_fuel(block_prefix_stuns, 17);
    if r == 0 {
    } else if r == 1 {
    } else if r == 2 {
    } else if r == 3 {
    } else if r == 4 {
    } else if r == 5 {
    } else if r == 6 {
    } else if r == 7 {
    } else if r == 8 {
    } else if r == 9 {
    } else if r == 10 {
    } else if r == 11 {
    } else if r == 12 {
    } else if r == 13 {
    } else if r == 14 {
    } else {
    }
}

/// Counting through a block of 16 status slots from `base`, whose slot
/// `base + c` is stunned exactly when `(c - r) % 16 >= 8`.
proof fn lemma_block_prefix(f: int, base: int, r: int, k: int)
    requires
        0 <= k <= 16,
        forall|c: int|
            0 <= c < 16 ==> #[trigger] stunned_before_frame(f, base + c) == ((c - r) % 16 >= 8),
    ensures
        stunned_below(f, base + k) == stunned_below(f, base) + block_prefix_stuns(r, k),
    decreases k,
{
    if k > 0 {
        lemma_block_prefix(f, base, r, k - 1);
        assert(stunned_before_frame(f, base + (k - 1)) == ((k - 1 - r) % 16 >= 8));
    }
}

/// Every block of 16 consecutive status slots holds 8 stunned ones.
proof fn lemma_stunned_block(f: int, m: int)
    requires
        0 <= f,
        0 <= m < 128,
    ensures
        stunned_below(f, GAMEPLAY_COMBAT_START + 16 * m + 16) == stunned_below(
            f,
            GAMEPLAY_COMBAT_START + 16 * m,
        ) + 8,
{
    let base = GAMEPLAY_COMBAT_START + 16 * m;
    let r = f % 16;
    let q = f / 16;
    vstd::arithmetic::div_mod::lemma_fundamental_div_mod(f, 16);
    assert forall|c: int| 0 <= c < 16 implies #[trigger] stunned_before_frame(f, base + c) == ((c
        - r) % 16 >= 8) by {
        vstd::arithmetic::div_mod::lemma_fundamental_div_mod_converse_mod(16 * m + c, 16, m, c);
        vstd::arithmetic::div_mod::lemma_mod_multiples_vanish(-q, c - r, 16);
        assert(c - f == 16 * (-q) + (c - r)) by (nonlinear_arith)
            requires
                f == 16 * q + r,
        ;
    }
    lemma_block_prefix(f, base, r, 16);
    lemma_block_stuns(r);
}

/// Below the status slots nothing is stunned; over the status slots 8 of
/// every 16 are; above them nothing is.
proof fn lemma_stunned_below(f: int, n: int)
    requires
        0 <= f,
        0 <= n <= GAMEPLAY_ENTITY_COUNT,
    ensures
        n <= GAMEPLAY_COMBAT_START ==> stunned_below(f, n) == 0,
        GAMEPLAY_COMBAT_START + 2048 <= n ==> stunned_below(f, n) == GAMEPLAY_STUNNED_COUNT,
    decreases n,
{
    if n > 0 {
        lemma_stunned_below(f, n - 1);
    }
    if n == GAMEPLAY_COMBAT_START + 2048 {
        lemma_stunned_blocks(f, 128);
    }
}

/// The first `m` blocks of 16 status slots hold `8 * m` stunned slots.
proof fn lemma_stunned_blocks(f: int, m: int)
    requires
        0 <= f,
        0 <= m <= 128,
    ensures
        stunned_below(f, GAMEPLAY_COMBAT_START + 16 * m) == 8 * m,
    decreases m,
{
    if m == 0 {
        lemma_stunned_below_combat(f, GAMEPLAY_COMBAT_START as int);
    } else {
        lemma_stunned_blocks(f, m - 1);
        lemma_stunned_block(f, m - 1);
    }
}

/// No slot below the combatants is stunned.
proof fn lemma_stunned_below_combat(f: int, n: int)
    requires
        0 <= n <= GAMEPLAY_COMBAT_START,
    ensures
        stunned_below(f, n) == 0,
    decreases n,
{
    if n > 0 {
        lemma_stunned_below_combat(f, n - 1);
    }
}

/// The digest counts the stunned slots.
proof fn lemma_digest_stunned(states: Seq<SlotState>, f: int, n: int)
    requires
        0 <= n <= states.len(),
        forall|x: int| 0 <= x < states.len() ==> #[trigger] stunned_flags(states)[x] == stunned_before_frame(f, x),
    ensures
        digest_of(states, n).stunned_count == stunned_below(f, n),
    decreases n,
{
    if n > 0 {
        lemma_digest_stunned(states, f, n - 1);
        assert(stunned_flags(states)[n - 1] == stunned_before_frame(f, n - 1));
        lemma_stunned_count_bound(f, n - 1);
    }
}

/// At most `n` of the first `n` slots are stunned.
proof fn lemma_stunned_count_bound(f: int, n: int)
    requires
        0 <= n,
    ensures
        0 <= stunned_below(f, n) <= n,
    decreases n,
{
    if n > 0 {
        lemma_stunned_count_bound(f, n - 1);
    }
}

/// Every frame of the standard trace keeps exactly
/// `GAMEPLAY_STUNNED_COUNT` combatants stunned: a population whose stuns
/// are those before any frame `f` counts that many stunned entities.
pub proof fn lemma_stunned_count(states: Seq<SlotState>, f: int)
    requires
        0 <= f,
        states.len() == GAMEPLAY_ENTITY_COUNT,
        forall|x: int|
            0 <= x < GAMEPLAY_ENTITY_COUNT ==> #[trigger] stunned_flags(states)[x]
                == stunned_before_frame(f, x),
    ensures
        digest_of(states, states.len() as int).stunned_count == GAMEPLAY_STUNNED_COUNT,
{
    lemma_digest_stunned(states, f, states.len() as int);
    lemma_stunned_below(f, GAMEPLAY_ENTITY_COUNT as int);
}

/// The integer phases of `frame` applied to `s`: the lifetime phase, the AI
/// source phase, the status transition phase and the projectile recycle
/// phase, in that order.
pub open spec fn frame_step(s: GameplayStateView, frame: GameplayFrame) -> GameplayStateView {
    let acted = ai_phase(lifetime_phase(s.states), frame.ai_slots@, frame.index, s.cooldown_trace_checksum);
    GameplayStateView {
        states: recycle_phase(
            status_phase(acted.0, frame.remove_stunned@, frame.add_stunned@),
            frame.recycle_projectiles@,
        ),
        cooldown_trace_checksum: acted.2,
    }
}

/// The integer state after the first `n` frames of the standard trace,
/// from its initial stun list.
pub open spec fn standard_trace_state(n: int) -> GameplayStateView
    decreases n,
{
    if n <= 0 {
        GameplayStateView {
            states: initial_states(listed(initially_stunned_spec())),
            cooldown_trace_checksum: 0,
        }
    } else {
        let s = standard_trace_state(n - 1);
        let acted = ai_phase(
            lifetime_phase(s.states),
            frame_ai_slots(n - 1),
            (n - 1) as usize,
            s.cooldown_trace_checksum,
        );
        GameplayStateView {
            states: recycle_phase(standard_status_phase(acted.0, n - 1), frame_recycle_projectiles(n - 1)),
            cooldown_trace_checksum: acted.2,
        }
    }
}

impl GameplayState {
    /// The four integer phases of `frame`, in turn; each must apply.
    fn run_frame_phases(&mut self, frame: &GameplayFrame)
        requires
            old(self)@.states.len() == GAMEPLAY_ENTITY_COUNT,
            forall|k: int|
                0 <= k < frame.ai_slots@.len() ==> {
                    let slot = #[trigger] frame.ai_slots@[k];
                    &&& slot < old(self)@.states.len()
                    &&& lifetime_phase(old(self)@.states)[slot as int].layout.target is Some
                    &&& lifetime_phase(old(self)@.states)[slot as int].layout.cooldown is Some
                },
            status_transition(
                stunned_flags(
                    ai_phase(
                        lifetime_phase(old(self)@.states),
                        frame.ai_slots@,
                        frame.index,
                        old(self)@.cooldown_trace_checksum,
                    ).0,
                ),
                frame.remove_stunned@,
                frame.add_stunned@,
            ) is Some,
            forall|k: int|
                0 <= k < frame.recycle_projectiles@.len() ==> #[trigger] frame.recycle_projectiles@[k]
                    < GAMEPLAY_ENTITY_COUNT,
        ensures
            final(self)@ == frame_step(old(self)@, *frame),
    {
        let ghost before = self@;
        proof {
            lemma_ai_phase_len(
                lifetime_phase(before.states),
                frame.ai_slots@,
                frame.index,
                before.cooldown_trace_checksum,
            );
        }
        self.run_lifetime_phase();
        assert(self@.states =~= lifetime_phase(before.states));
        let _targets = self.run_ai_source_phase(frame);
        let ghost acted = self@.states;
        self.run_status_transition_phase(frame);
        assert(self@.states =~= status_phase(acted, frame.remove_stunned@, frame.add_stunned@));
        self.run_projectile_recycle_phase(frame);
    }

    /// The integer state after every frame of the standard trace, run phase
    /// by phase from the trace's initial stun list. No phase of the trace
    /// fails: every AI slot has a target and a cooldown, every status
    /// transition applies and every recycled slot lies in the population.
    pub fn after_standard_trace() -> (r: GameplayState)
        ensures
            r@ == standard_trace_state(GAMEPLAY_FRAME_COUNT as int),
            sound(r@.states),
            ({
                let d = digest_of(r@.states, r@.states.len() as int);
                &&& d.moving_count == GAMEPLAY_MOVING_COUNT
                &&& d.health_count == GAMEPLAY_HEALTH_COUNT
                &&& d.lifetime_count == GAMEPLAY_LIFETIME_COUNT
                &&& d.stunned_count == GAMEPLAY_STUNNED_COUNT
            }),
    {
        let trace = GameplayTrace::standard();
        let stunned = trace.initially_stunned();
        proof {
            assert forall|k: int| 0 <= k < stunned@.len() implies #[trigger] stunned@[k]
                < GAMEPLAY_ENTITY_COUNT by {
                assert(stunned@.contains(stunned@[k]));
                lemma_status_trace_consistent(0, stunned@[k] as int);
            }
        }
        let mut state = GameplayState::new(stunned);
        proof {
            lemma_initial_sound(listed(initially_stunned_spec()));
            lemma_initial_stuns();
        }
        let frames = trace.frames();
        let mut f: usize = 0;
        while f < GAMEPLAY_FRAME_COUNT
            invariant
                f <= GAMEPLAY_FRAME_COUNT,
                is_standard_trace(trace@),
                frames@ == trace@.frames,
                state@ == standard_trace_state(f as int),
                sound(state@.states),
                forall|x: int|
                    0 <= x < GAMEPLAY_ENTITY_COUNT ==> #[trigger] stunned_flags(state@.states)[x]
                        == stunned_before_frame(f as int, x),
            decreases GAMEPLAY_FRAME_COUNT - f,
        {
            let ghost before = state@;
            proof {
                assert(is_canonical_frame(frames@[f as int], f as int));
                lemma_standard_frame(before.states, f, before.cooldown_trace_checksum);
            }
            state.run_frame_phases(&frames[f]);
            f = f + 1;
        }
        proof {
            lemma_sound_digest_counts(state@.states);
            lemma_stunned_count(state@.states, GAMEPLAY_FRAME_COUNT as int);
        }
        state
    }
}

/// The stunned slots after replaying the first `i` frames of `t`: the
/// initial stun list, then for each frame its releases taken out and its
/// new stuns put in.
pub open spec fn replayed_stuns(t: GameplayTraceView, i: int) -> Set<usize>
    decreases i,
{
    if i <= 0 {
        t.initially_stunned.to_set()
    } else {
        let frame = t.frames[i - 1];
        replayed_stuns(t, i - 1).difference(frame.remove_stunned@.to_set()).union(
            frame.add_stunned@.to_set(),
        )
    }
}

/// The slots stunned just before frame `f`, as a set.
pub open spec fn stunned_set(f: int) -> Set<usize> {
    Set::new(|x: usize| stunned_before_frame(f, x as int))
}

/// Replaying the first `i` frames of the standard trace leaves the stuns
/// before frame `i`.
proof fn lemma_replayed_stuns(t: GameplayTraceView, i: int)
    requires
        is_standard_trace(t),
        0 <= i <= GAMEPLAY_FRAME_COUNT,
    ensures
        replayed_stuns(t, i) == stunned_set(i),
    decreases i,
{
    if i == 0 {
        assert forall|x: usize| #[trigger] replayed_stuns(t, 0).contains(x) == stunned_set(0).contains(x) by {
            lemma_status_trace_consistent(0, x as int);
        }
        assert(replayed_stuns(t, 0) =~= stunned_set(0));
    } else {
        lemma_replayed_stuns(t, i - 1);
        let frame = t.frames[i - 1];
        assert(is_canonical_frame(frame, i - 1));
        assert forall|x: usize| #[trigger] replayed_stuns(t, i).contains(x) == stunned_set(i).contains(x) by {
            lemma_status_trace_consistent(i - 1, x as int);
        }
        assert(replayed_stuns(t, i) =~= stunned_set(i));
    }
}

/// The slots below `n` that are stunned just before frame `f`.
spec fn stunned_set_below(f: int, n: int) -> Set<usize> {
    Set::new(|x: usize| (x as int) < n && stunned_before_frame(f, x as int))
}

/// There are `stunned_below(f, n)` of them.
proof fn lemma_stunned_set_below(f: int, n: int)
    requires
        0 <= n <= GAMEPLAY_ENTITY_COUNT,
    ensures
        stunned_set_below(f, n).finite(),
        stunned_set_below(f, n).len() == stunned_below(f, n),
    decreases n,
{
    if n == 0 {
        assert(stunned_set_below(f, 0) =~= Set::<usize>::empty());
    } else {
        lemma_stunned_set_below(f, n - 1);
        let last = (n - 1) as usize;
        if stunned_before_frame(f, n - 1) {
            assert(stunned_set_below(f, n) =~= stunned_set_below(f, n - 1).insert(last));
        } else {
            assert(stunned_set_below(f, n) =~= stunned_set_below(f, n - 1));
        }
    }
}

/// Replaying the standard trace from its initial stun list never releases
/// a slot that is not stunned and never stuns a slot twice, and after every
/// frame `GAMEPLAY_STUNNED_COUNT` slots are stunned.
pub proof fn lemma_standard_trace_stun_replay(t: GameplayTraceView, i: int)
    requires
        is_standard_trace(t),
        0 <= i <= GAMEPLAY_FRAME_COUNT,
    ensures
        replayed_stuns(t, i).finite(),
        replayed_stuns(t, i).len() == GAMEPLAY_STUNNED_COUNT,
        i < GAMEPLAY_FRAME_COUNT ==> t.frames[i].remove_stunned@.to_set().subset_of(replayed_stuns(t, i)),
        i < GAMEPLAY_FRAME_COUNT ==> t.frames[i].add_stunned@.to_set().disjoint(
            replayed_stuns(t, i).difference(t.frames[i].remove_stunned@.to_set()),
        ),
{
    lemma_replayed_stuns(t, i);
    lemma_stunned_set_below(i, GAMEPLAY_ENTITY_COUNT as int);
    lemma_stunned_below(i, GAMEPLAY_ENTITY_COUNT as int);
    assert(stunned_set(i) =~= stunned_set_below(i, GAMEPLAY_ENTITY_COUNT as int));
    if i < GAMEPLAY_FRAME_COUNT {
        let frame = t.frames[i];
        assert(is_canonical_frame(frame, i));
        assert forall|x: usize| #[trigger] frame.remove_stunned@.to_set().contains(x) implies replayed_stuns(
            t,
            i,
        ).contains(x) by {
            lemma_status_trace_consistent(i, x as int);
        }
        assert forall|x: usize| #[trigger] frame.add_stunned@.to_set().contains(x) implies !replayed_stuns(
            t,
            i,
        ).contains(x) by {
            lemma_status_trace_consistent(i, x as int);
        }
    }
}

} // verus!
