//! One animated entity: an animation table driven by two independent
//! periodic clocks, one for frame advances and one for forced behavioral
//! state transitions.

use vstd::prelude::*;

use crate::clock::{tick_clock, Clock};
use crate::state::{successor_spec, BehavioralState};
use crate::table::{
    advance_ok, advance_spec, advance_state_spec, resolve_initial, EntityAnimations, TableSpec,
};

verus! {

/// Mathematical model of an [`AnimatedEntity`].
pub ghost struct EntitySpec {
    pub table: TableSpec,
    pub frame_clock: Clock,
    pub state_clock: Clock,
}

/// The table after the frame clock's part of a tick: one frame advance when
/// the clock fired and the advance succeeds, otherwise unchanged (a failed
/// advance freezes the table rather than halting the tick).
pub open spec fn frame_step(t: TableSpec, fired: bool) -> TableSpec {
    if fired && advance_ok(t) {
        advance_spec(t)
    } else {
        t
    }
}

/// The table after the state clock's part of a tick: an unconditional
/// round-robin transition to the successor of the current behavioral state
/// (an unset state counts as `Idle`) when the clock fired, otherwise
/// unchanged.
pub open spec fn state_step(t: TableSpec, fired: bool) -> TableSpec {
    if fired {
        advance_state_spec(t, successor_spec(resolve_initial(t.current.state)))
    } else {
        t
    }
}

/// What one simulation tick hands back: the frame index for the render
/// collaborator, and a non-fatal flag set when a frame advance found no
/// entry for the current state.
#[derive(Clone, Copy, Debug, PartialEq, Eq, Structural)]
pub struct TickOutcome {
    pub frame_index: usize,
    pub configuration_error: bool,
}

/// An entity's animation bookkeeping: the table plus its two clocks. The
/// entity owns all three exclusively; one tick runs to completion before
/// anything reads the resulting frame index.
pub struct AnimatedEntity {
    animations: EntityAnimations,
    frame_clock: Clock,
    state_clock: Clock,
}

impl View for AnimatedEntity {
    type V = EntitySpec;

    closed spec fn view(&self) -> EntitySpec {
        EntitySpec {
            table: self.animations@,
            frame_clock: self.frame_clock,
            state_clock: self.state_clock,
        }
    }
}

impl AnimatedEntity {
    /// Pairs a constructed table with a fresh frame clock and state clock.
    pub fn new(animations: EntityAnimations, frame_period_ms: u64, state_period_ms: u64) -> (r:
        AnimatedEntity)
        ensures
            r@.table == animations@,
            r@.frame_clock == (Clock {
                period_ms: frame_period_ms,
                remaining_ms: frame_period_ms,
            }),
            r@.state_clock == (Clock {
                period_ms: state_period_ms,
                remaining_ms: state_period_ms,
            }),
    {
        AnimatedEntity {
            animations,
            frame_clock: Clock::new(frame_period_ms),
            state_clock: Clock::new(state_period_ms),
        }
    }

    /// The entity's animation table.
    pub fn animations(&self) -> (r: &EntityAnimations)
        ensures
            r@ == self@.table,
    {
        &self.animations
    }

    /// The clock gating frame advances.
    pub fn frame_clock(&self) -> (r: Clock)
        ensures
            r == self@.frame_clock,
    {
        self.frame_clock
    }

    /// The clock gating forced state transitions.
    pub fn state_clock(&self) -> (r: Clock)
        ensures
            r == self@.state_clock,
    {
        self.state_clock
    }

    /// One simulation tick of `elapsed_ms` wall time. The frame clock is
    /// advanced first and, when it fires, the table advances one frame; the
    /// state clock is advanced second and, when it fires, the behavioral
    /// state moves one step along the round-robin cycle. The returned frame
    /// index is read after the frame advance, so a tick on which both
    /// clocks fire still shows one frame of the outgoing clip: the state
    /// switch takes effect on a later overflow.
    ///
    /// A frame advance that finds no entry for the current state never
    /// halts the tick: the table freezes on its last valid frame and the
    /// outcome's `configuration_error` flag is set instead.
    pub fn tick(&mut self, elapsed_ms: u64) -> (r: TickOutcome)
        requires
            old(self)@.table.wf(),
        ensures
            final(self)@.table.wf(),
            ({
                let fired_frame = elapsed_ms >= old(self)@.frame_clock.remaining_ms;
                let fired_state = elapsed_ms >= old(self)@.state_clock.remaining_ms;
                let after_frame = frame_step(old(self)@.table, fired_frame);
                &&& final(self)@.table == state_step(after_frame, fired_state)
                &&& r.frame_index == after_frame.index
                &&& r.configuration_error == (fired_frame && !advance_ok(old(self)@.table))
                &&& final(self)@.frame_clock == tick_clock(old(self)@.frame_clock, elapsed_ms)
                &&& final(self)@.state_clock == tick_clock(old(self)@.state_clock, elapsed_ms)
            }),
    {
        let fired_frame = self.frame_clock.tick(elapsed_ms);
        let mut configuration_error = false;
        if fired_frame {
            match self.animations.update_animation() {
                Ok(_) => {},
                Err(_) => {
                    configuration_error = true;
                },
            }
        }
        let frame_index = self.animations.current_index();
        let fired_state = self.state_clock.tick(elapsed_ms);
        if fired_state {
            let st = match self.animations.current_behavioral_state() {
                Some(s) => s,
                None => BehavioralState::Idle,
            };
            self.animations.update_state(st.successor());
        }
        TickOutcome { frame_index, configuration_error }
    }
}

} // verus!
