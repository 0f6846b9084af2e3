//! The five phases of a gameplay frame and the contract that every engine
//! adapter implements to run them.

use vstd::prelude::*;

use super::gameplay::GameplayDigest;
use super::gameplay::GameplayFrame;

verus! {

/// One phase of a gameplay frame.
#[derive(Clone, Copy, Debug, PartialEq, Eq, Structural)]
pub enum GameplayPhase {
    Iteration,
    AiSourceLookup,
    TargetPositionLookup,
    StatusTransition,
    ProjectileRecycle,
}

/// The phases of a frame, in execution order.
pub open spec fn all_phases() -> Seq<GameplayPhase> {
    seq![
        GameplayPhase::Iteration,
        GameplayPhase::AiSourceLookup,
        GameplayPhase::TargetPositionLookup,
        GameplayPhase::StatusTransition,
        GameplayPhase::ProjectileRecycle,
    ]
}

/// The benchmark name of a phase.
pub open spec fn phase_name(phase: GameplayPhase) -> Seq<char> {
    match phase {
        GameplayPhase::Iteration => "iteration"@,
        GameplayPhase::AiSourceLookup => "ai_source_lookup"@,
        GameplayPhase::TargetPositionLookup => "target_position_lookup"@,
        GameplayPhase::StatusTransition => "status_transition"@,
        GameplayPhase::ProjectileRecycle => "projectile_recycle"@,
    }
}

impl GameplayPhase {
    /// The phases of a frame, in execution order.
    pub fn all() -> (r: [GameplayPhase; 5])
        ensures
            r@ == all_phases(),
    {
        let r = [
            GameplayPhase::Iteration,
            GameplayPhase::AiSourceLookup,
            GameplayPhase::TargetPositionLookup,
            GameplayPhase::StatusTransition,
            GameplayPhase::ProjectileRecycle,
        ];
        assert(r@ =~= all_phases());
        r
    }

    /// The benchmark name of this phase.
    pub fn name(self) -> (r: &'static str)
        ensures
            r@ == phase_name(self),
    {
        match self {
            GameplayPhase::Iteration => "iteration",
            GameplayPhase::AiSourceLookup => "ai_source_lookup",
            GameplayPhase::TargetPositionLookup => "target_position_lookup",
            GameplayPhase::StatusTransition => "status_transition",
            GameplayPhase::ProjectileRecycle => "projectile_recycle",
        }
    }
}

/// Shared phase contract used by full-frame and diagnostic gameplay paths.
///
/// An adapter may describe what its phases do: where `obeys_phase_spec`
/// holds, running `phase` of a frame leaves the adapter in the state
/// `phase_spec` names. By default an adapter promises nothing.
pub trait GameplayPhaseAdapter: Sized {
    /// Whether `run_phase` follows `phase_spec`.
    open spec fn obeys_phase_spec() -> bool {
        false
    }

    /// The state of `self` after running `phase` of `frame`.
    open spec fn phase_spec(self, phase: GameplayPhase, frame: GameplayFrame) -> Self {
        self
    }

    fn run_phase(&mut self, phase: GameplayPhase, frame: &GameplayFrame)
        ensures
            Self::obeys_phase_spec() ==> *final(self) == old(self).phase_spec(phase, *frame),
    ;

    fn digest(&self) -> GameplayDigest;

    /// Runs every phase of `frame`, in execution order.
    fn run_frame(&mut self, frame: &GameplayFrame)
        ensures
            Self::obeys_phase_spec() ==> *final(self) == old(self).phase_spec(
                all_phases()[0],
                *frame,
            ).phase_spec(all_phases()[1], *frame).phase_spec(all_phases()[2], *frame).phase_spec(
                all_phases()[3],
                *frame,
            ).phase_spec(all_phases()[4], *frame),
    {
        let phases = GameplayPhase::all();
        let ghost start = *self;
        let ghost p = all_phases();
        let mut i: usize = 0;
        while i < 5
            invariant
                i <= 5,
                phases@ == all_phases(),
                p == all_phases(),
                start == *old(self),
                Self::obeys_phase_spec() ==> {
                    let s1 = start.phase_spec(p[0], *frame);
                    let s2 = s1.phase_spec(p[1], *frame);
                    let s3 = s2.phase_spec(p[2], *frame);
                    let s4 = s3.phase_spec(p[3], *frame);
                    &&& i == 0 ==> *self == start
                    &&& i == 1 ==> *self == s1
                    &&& i == 2 ==> *self == s2
                    &&& i == 3 ==> *self == s3
                    &&& i == 4 ==> *self == s4
                    &&& i == 5 ==> *self == s4.phase_spec(p[4], *frame)
                },
            decreases 5 - i,
        {
            self.run_phase(phases[i], frame);
            i = i + 1;
        }
    }
}

} // verus!
