//! Animation clips and their pairing with a behavioral state.

use vstd::prelude::*;

use crate::state::BehavioralState;

verus! {

/// Mathematical model of an [`Animation`]: a named, contiguous range of
/// sprite-sheet frame indices. The clip occupies `[start, start + span]`
/// inclusive, so `span` is the number of frames past the first one.
pub ghost struct ClipSpec {
    pub name: Seq<char>,
    pub start: int,
    pub span: int,
}

/// Mathematical model of an [`AnimationState`]: a clip together with the
/// optional behavioral state it represents.
pub ghost struct EntrySpec {
    pub clip: ClipSpec,
    pub state: Option<BehavioralState>,
}

/// An immutable named frame range of a sprite sheet. The clip's frames are
/// the indices `start_index ..= start_index + span`.
pub struct Animation {
    name: String,
    start_index: usize,
    span: usize,
}

impl View for Animation {
    type V = ClipSpec;

    closed spec fn view(&self) -> ClipSpec {
        ClipSpec { name: self.name@, start: self.start_index as int, span: self.span as int }
    }
}

impl Animation {
    pub fn new(name: String, start_index: usize, span: usize) -> (r: Animation)
        ensures
            r@ == (ClipSpec { name: name@, start: start_index as int, span: span as int }),
    {
        Animation { name, start_index, span }
    }

    /// First frame index of the clip.
    pub fn start_index(&self) -> (r: usize)
        ensures
            r == self@.start,
    {
        self.start_index
    }

    /// Number of frames past the first one; the clip's last frame is
    /// `start_index + span`.
    pub fn span(&self) -> (r: usize)
        ensures
            r == self@.span,
    {
        self.span
    }

    /// The clip's name. Names are carried for the caller's benefit; no lookup
    /// uses them as a key.
    pub fn name(&self) -> (r: &String)
        ensures
            r@ == self@.name,
    {
        &self.name
    }

    /// An owned copy whose model equals this clip's.
    pub fn duplicate(&self) -> (r: Animation)
        ensures
            r@ == self@,
    {
        Animation { name: self.name.clone(), start_index: self.start_index, span: self.span }
    }
}

/// The models of a sequence of entries, in order.
pub open spec fn entries_view(s: Seq<AnimationState>) -> Seq<EntrySpec> {
    s.map_values(|e: AnimationState| e@)
}

/// One entry of an animation table: a clip plus the behavioral state it is
/// played for. `state == None` marks a clip tied to no behavior; lookups by
/// state never return such an entry.
pub struct AnimationState {
    animation: Animation,
    state: Option<BehavioralState>,
}

impl View for AnimationState {
    type V = EntrySpec;

    closed spec fn view(&self) -> EntrySpec {
        EntrySpec { clip: self.animation@, state: self.state }
    }
}

impl AnimationState {
    pub fn new(animation: Animation, state: Option<BehavioralState>) -> (r: AnimationState)
        ensures
            r@ == (EntrySpec { clip: animation@, state: state }),
    {
        AnimationState { animation, state }
    }

    pub fn animation(&self) -> (r: &Animation)
        ensures
            r@ == self@.clip,
    {
        &self.animation
    }

    pub fn state(&self) -> (r: Option<BehavioralState>)
        ensures
            r == self@.state,
    {
        self.state
    }

    /// Replaces the behavioral state this entry is played for; the clip is
    /// untouched.
    pub fn set_state(&mut self, state: Option<BehavioralState>)
        ensures
            final(self)@ == (EntrySpec { clip: old(self)@.clip, state: state }),
    {
        self.state = state;
    }

    /// An owned copy whose model equals this entry's.
    pub fn duplicate(&self) -> (r: AnimationState)
        ensures
            r@ == self@,
    {
        AnimationState { animation: self.animation.duplicate(), state: self.state }
    }
}

} // verus!
