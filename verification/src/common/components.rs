//! The integer and marker components of the gameplay workload.

use vstd::prelude::*;

verus! {

/// Marks an enemy combatant.
#[derive(Clone, Copy, Debug, Default, PartialEq, Eq, Structural)]
pub struct IsEnemy;

/// Marks an allied combatant.
#[derive(Clone, Copy, Debug, Default, PartialEq, Eq, Structural)]
pub struct IsAlly;

/// Remaining frames of a projectile or effect.
#[derive(Clone, Copy, Debug, Default, PartialEq, Eq, Structural)]
pub struct Lifetime(pub u32);

/// The logical slot that an AI entity looks up every time it acts.
#[derive(Clone, Copy, Debug, Default, PartialEq, Eq, Structural)]
pub struct TargetSlot(pub u32);

/// Frames until an AI entity may act again.
#[derive(Clone, Copy, Debug, Default, PartialEq, Eq, Structural)]
pub struct Cooldown(pub u32);

/// The logical slot of the combatant that fired a projectile.
#[derive(Clone, Copy, Debug, Default, PartialEq, Eq, Structural)]
pub struct OwnerSlot(pub u32);

/// Marks a stunned combatant.
#[derive(Clone, Copy, Debug, Default, PartialEq, Eq, Structural)]
pub struct Stunned;

} // verus!
