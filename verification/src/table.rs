//! The per-entity animation table: a sorted collection of state-keyed clips,
//! the current entry, and the current frame index, with the advance-frame and
//! advance-state algorithms.

use vstd::prelude::*;

use crate::animation::{entries_view, Animation, AnimationState, ClipSpec, EntrySpec};
use crate::state::BehavioralState;

verus! {

/// No entry of the table matches the state that an operation needed: the
/// table was constructed, or later driven, with a state it has no clip for.
#[derive(Clone, Copy, Debug, PartialEq, Eq, Structural)]
pub struct ConfigurationError;

/// Mathematical model of an [`EntityAnimations`] table.
pub ghost struct TableSpec {
    pub entries: Seq<EntrySpec>,
    pub current: EntrySpec,
    pub index: int,
}

/// Machine bounds on one entry: the clip's last frame index,
/// `start + span`, stays below `usize::MAX`, so the frame counter can step
/// one past it without overflowing.
pub open spec fn entry_wf(e: EntrySpec) -> bool {
    &&& 0 <= e.clip.start
    &&& 0 <= e.clip.span
    &&& e.clip.start + e.clip.span < usize::MAX
}

/// Machine bounds on every entry of a sequence.
pub open spec fn entries_wf(entries: Seq<EntrySpec>) -> bool {
    forall|i: int| 0 <= i < entries.len() ==> entry_wf(#[trigger] entries[i])
}

/// The entries are ordered ascending by the clips' starting frame index.
pub open spec fn sorted_by_start(entries: Seq<EntrySpec>) -> bool {
    forall|i: int, j: int|
        0 <= i < j < entries.len() ==> (#[trigger] entries[i]).clip.start <= (
        #[trigger] entries[j]).clip.start
}

/// The last entry of `entries` whose state is `s`, scanning forward; `None`
/// when no entry matches. When several entries share a state, the last one
/// in table order wins.
pub open spec fn find_last(entries: Seq<EntrySpec>, s: BehavioralState) -> Option<EntrySpec>
    decreases entries.len(),
{
    if entries.len() == 0 {
        None
    } else if entries.last().state == Some(s) {
        Some(entries.last())
    } else {
        find_last(entries.drop_last(), s)
    }
}

/// `e` placed into `entries` after every entry whose starting index is less
/// than or equal to `e`'s, and before the rest. On a sorted sequence this is
/// the stable insertion position.
pub open spec fn insert_sorted(entries: Seq<EntrySpec>, e: EntrySpec) -> Seq<EntrySpec>
    decreases entries.len(),
{
    if entries.len() == 0 {
        seq![e]
    } else if entries.last().clip.start <= e.clip.start {
        entries.push(e)
    } else {
        insert_sorted(entries.drop_last(), e).push(entries.last())
    }
}

/// The stable sort of `entries` ascending by starting frame index: entries
/// with equal starting indices keep their relative order.
pub open spec fn sort_by_start(entries: Seq<EntrySpec>) -> Seq<EntrySpec>
    decreases entries.len(),
{
    if entries.len() == 0 {
        Seq::empty()
    } else {
        insert_sorted(sort_by_start(entries.drop_last()), entries.last())
    }
}

/// The behavioral state a table starts in: the caller's choice, or `Idle`
/// when the caller supplied none.
pub open spec fn resolve_initial(s: Option<BehavioralState>) -> BehavioralState {
    match s {
        Some(st) => st,
        None => BehavioralState::Idle,
    }
}

/// The entry a table starts on: the last entry matching the resolved initial
/// state, or, when that state has no entry, the last `Idle` entry as a silent
/// fallback. `None` when neither lookup succeeds; construction then fails.
pub open spec fn initial_entry(entries: Seq<EntrySpec>, resolved: BehavioralState) -> Option<
    EntrySpec,
> {
    match find_last(entries, resolved) {
        Some(e) => Some(e),
        None => find_last(entries, BehavioralState::Idle),
    }
}

impl TableSpec {
    /// Well-formedness: the table is non-empty and sorted, every entry and
    /// the current entry respect the machine bounds, and the current frame
    /// index lies within the current clip's range.
    pub open spec fn wf(self) -> bool {
        &&& self.entries.len() > 0
        &&& sorted_by_start(self.entries)
        &&& entries_wf(self.entries)
        &&& entry_wf(self.current)
        &&& self.current.clip.start <= self.index <= self.current.clip.start
            + self.current.clip.span
    }
}

/// Advancing the behavioral state directly: only the current entry's state
/// changes; the clip and the frame index are deliberately left alone, so a
/// clip in flight finishes before the next frame-advance overflow picks up
/// the new state's clip.
pub open spec fn advance_state_spec(t: TableSpec, s: BehavioralState) -> TableSpec {
    TableSpec {
        entries: t.entries,
        current: EntrySpec { clip: t.current.clip, state: Some(s) },
        index: t.index,
    }
}

/// The defensive first step of a frame advance: a current entry with no
/// state is re-initialized to the last `Idle` entry. A table whose current
/// state is set, the common case, is left alone; so is one where the `Idle`
/// lookup fails (the advance then reports a configuration error).
pub open spec fn resolve_current(t: TableSpec) -> TableSpec {
    if t.current.state is None {
        match find_last(t.entries, BehavioralState::Idle) {
            Some(e) => TableSpec { entries: t.entries, current: e, index: e.clip.start },
            None => t,
        }
    } else {
        t
    }
}

/// Whether a frame advance on `t` succeeds: the defensive re-initialization
/// (if needed) finds an `Idle` entry, and the overflow re-lookup (if the
/// incremented index leaves the current clip) finds an entry for the current
/// state.
pub open spec fn advance_ok(t: TableSpec) -> bool {
    &&& (t.current.state is None ==> find_last(t.entries, BehavioralState::Idle) is Some)
    &&& {
        let r = resolve_current(t);
        r.index + 1 > r.current.clip.start + r.current.clip.span ==> find_last(
            r.entries,
            r.current.state->0,
        ) is Some
    }
}

/// The table after one successful frame advance: resolve an unset state,
/// step the frame index forward, and on leaving the clip's range re-look-up
/// the current state's entry and restart at its first frame.
pub open spec fn advance_spec(t: TableSpec) -> TableSpec {
    let r = resolve_current(t);
    if r.index + 1 > r.current.clip.start + r.current.clip.span {
        match find_last(r.entries, r.current.state->0) {
            Some(e) => TableSpec { entries: r.entries, current: e, index: e.clip.start },
            None => t,
        }
    } else {
        TableSpec { entries: r.entries, current: r.current, index: r.index + 1 }
    }
}

/// `advance_spec` applied `n` times.
pub open spec fn advance_n(t: TableSpec, n: nat) -> TableSpec
    decreases n,
{
    if n == 0 {
        t
    } else {
        advance_spec(advance_n(t, (n - 1) as nat))
    }
}

/// What `find_last` returns: a matching member of the sequence, or a witness
/// that no entry matches.
pub proof fn lemma_find_last_props(entries: Seq<EntrySpec>, s: BehavioralState)
    ensures
        match find_last(entries, s) {
            Some(e) => entries.contains(e) && e.state == Some(s),
            None => forall|i: int|
                0 <= i < entries.len() ==> (#[trigger] entries[i]).state != Some(s),
        },
    decreases entries.len(),
{
    if entries.len() == 0 {
    } else if entries.last().state == Some(s) {
        assert(entries[entries.len() - 1] == entries.last());
    } else {
        lemma_find_last_props(entries.drop_last(), s);
        match find_last(entries.drop_last(), s) {
            Some(e) => {
                let i = choose|i: int|
                    0 <= i < entries.drop_last().len() && entries.drop_last()[i] == e;
                assert(entries[i] == e);
            },
            None => {
                assert forall|i: int| 0 <= i < entries.len() implies (
                #[trigger] entries[i]).state != Some(s) by {
                    if i < entries.len() - 1 {
                        assert(entries.drop_last()[i] == entries[i]);
                    }
                }
            },
        }
    }
}

/// Inserting after every entry with a starting index less than or equal to
/// the new entry's is inserting at any position `j` that splits the sequence
/// that way.
pub proof fn lemma_insert_sorted_splits(s: Seq<EntrySpec>, x: EntrySpec, j: int)
    requires
        0 <= j <= s.len(),
        forall|k: int| 0 <= k < j ==> (#[trigger] s[k]).clip.start <= x.clip.start,
        forall|k: int| j <= k < s.len() ==> (#[trigger] s[k]).clip.start > x.clip.start,
    ensures
        insert_sorted(s, x) == s.insert(j, x),
    decreases s.len(),
{
    if s.len() == 0 {
        assert(insert_sorted(s, x) =~= s.insert(j, x));
    } else if j == s.len() {
        assert(s[s.len() - 1].clip.start <= x.clip.start);
        assert(s.push(x) =~= s.insert(j, x));
    } else {
        assert(s[s.len() - 1].clip.start > x.clip.start);
        lemma_insert_sorted_splits(s.drop_last(), x, j);
        assert(s.drop_last().insert(j, x).push(s.last()) =~= s.insert(j, x));
    }
}

/// Sorting a sequence that is already sorted leaves it as it is.
pub proof fn lemma_sort_by_start_id(s: Seq<EntrySpec>)
    requires
        sorted_by_start(s),
    ensures
        sort_by_start(s) == s,
    decreases s.len(),
{
    if s.len() == 0 {
        assert(sort_by_start(s) =~= s);
    } else {
        assert forall|i: int, j: int| 0 <= i < j < s.drop_last().len() implies (
        #[trigger] s.drop_last()[i]).clip.start <= (#[trigger] s.drop_last()[j]).clip.start by {
            assert(s[i].clip.start <= s[j].clip.start);
        }
        lemma_sort_by_start_id(s.drop_last());
        if s.len() == 1 {
            assert(insert_sorted(s.drop_last(), s.last()) =~= s);
        } else {
            assert(s[s.len() - 2].clip.start <= s[s.len() - 1].clip.start);
            assert(s.drop_last().last() == s[s.len() - 2]);
            assert(s.drop_last().push(s.last()) =~= s);
        }
    }
}

/// The animation bookkeeping one entity owns: its clips keyed by behavioral
/// state, the entry currently playing, and the frame index currently shown.
pub struct EntityAnimations {
    current_index: usize,
    animation_states: Vec<AnimationState>,
    current_state: AnimationState,
}

impl View for EntityAnimations {
    type V = TableSpec;

    closed spec fn view(&self) -> TableSpec {
        TableSpec {
            entries: entries_view(self.animation_states@),
            current: self.current_state@,
            index: self.current_index as int,
        }
    }
}

/// The last entry of `entries` whose state is `state`, as an owned copy.
fn find_last_entry(entries: &Vec<AnimationState>, state: BehavioralState) -> (r: Option<
    AnimationState,
>)
    ensures
        match r {
            Some(e) => find_last(entries_view(entries@), state) == Some(e@),
            None => find_last(entries_view(entries@), state) is None,
        },
{
    let ghost s = entries_view(entries@);
    let mut result: Option<AnimationState> = None;
    let mut i: usize = 0;
    while i < entries.len()
        invariant
            0 <= i <= entries.len(),
            s == entries_view(entries@),
            s.len() == entries@.len(),
            match result {
                Some(e) => find_last(s.take(i as int), state) == Some(e@),
                None => find_last(s.take(i as int), state) is None,
            },
        decreases entries.len() - i,
    {
        proof {
            assert(s.take(i + 1).drop_last() =~= s.take(i as int));
            assert(s.take(i + 1).last() == s[i as int]);
        }
        let entry = &entries[i];
        let matched = match entry.state() {
            Some(es) => es == state,
            None => false,
        };
        if matched {
            result = Some(entry.duplicate());
        }
        i += 1;
    }
    proof {
        assert(s.take(entries@.len() as int) =~= s);
    }
    result
}

impl EntityAnimations {
    /// The frame index currently shown; the render collaborator reads this
    /// once per tick.
    pub fn current_index(&self) -> (r: usize)
        ensures
            r == self@.index,
    {
        self.current_index
    }

    /// The behavioral state of the entry currently playing.
    pub fn current_behavioral_state(&self) -> (r: Option<BehavioralState>)
        ensures
            r == self@.current.state,
    {
        self.current_state.state()
    }

    /// The clip of the entry currently playing.
    pub fn current_animation(&self) -> (r: &Animation)
        ensures
            r@ == self@.current.clip,
    {
        self.current_state.animation()
    }

    /// How many entries the table holds.
    pub fn animations_len(&self) -> (r: usize)
        ensures
            r == self@.entries.len(),
    {
        self.animation_states.len()
    }

    /// The entry at position `i` of the table's sorted order.
    pub fn animation_at(&self, i: usize) -> (r: &AnimationState)
        requires
            i < self@.entries.len(),
        ensures
            r@ == self@.entries[i as int],
    {
        &self.animation_states[i]
    }

    /// Re-establishes the table order: a stable sort of the entries
    /// ascending by starting frame index. The current entry and the frame
    /// index are untouched.
    fn sort_animations(&mut self)
        ensures
            final(self)@.entries == sort_by_start(old(self)@.entries),
            sorted_by_start(final(self)@.entries),
            final(self)@.entries.len() == old(self)@.entries.len(),
            forall|j: int|
                0 <= j < final(self)@.entries.len() ==> old(self)@.entries.contains(
                    #[trigger] final(self)@.entries[j],
                ),
            final(self)@.current == old(self)@.current,
            final(self)@.index == old(self)@.index,
    {
        let ghost s = entries_view(self.animation_states@);
        let n = self.animation_states.len();
        let mut sorted_entries: Vec<AnimationState> = Vec::new();
        let mut i: usize = 0;
        while i < n
            invariant
                0 <= i <= n,
                n == self.animation_states@.len(),
                s == entries_view(self.animation_states@),
                sorted_entries@.len() == i,
                entries_view(sorted_entries@) == sort_by_start(s.take(i as int)),
                sorted_by_start(entries_view(sorted_entries@)),
                forall|k: int| 0 <= k < i ==> s.contains(#[trigger] sorted_entries@[k]@),
            decreases n - i,
        {
            let e = self.animation_states[i].duplicate();
            let e_start = e.animation().start_index();
            let ghost before = entries_view(sorted_entries@);
            let mut j: usize = sorted_entries.len();
            while j > 0 && sorted_entries[j - 1].animation().start_index() > e_start
                invariant
                    0 <= j <= sorted_entries@.len(),
                    e_start == e@.clip.start,
                    before == entries_view(sorted_entries@),
                    forall|k: int|
                        j <= k < sorted_entries@.len() ==> (
                        #[trigger] sorted_entries@[k])@.clip.start > e_start,
                decreases j,
            {
                j -= 1;
            }
            proof {
                assert forall|k: int| 0 <= k < j implies (
                #[trigger] before[k]).clip.start <= e@.clip.start by {
                    if k < j - 1 {
                        assert(before[k].clip.start <= before[j - 1].clip.start);
                    }
                }
                assert forall|k: int| j <= k < before.len() implies (
                #[trigger] before[k]).clip.start > e@.clip.start by {}
                lemma_insert_sorted_splits(before, e@, j as int);
            }
            sorted_entries.insert(j, e);
            i += 1;
            proof {
                let after = entries_view(sorted_entries@);
                assert(after =~= before.insert(j as int, e@));
                assert(after == insert_sorted(before, e@));
                assert(s.take(i as int).drop_last() =~= s.take(i - 1));
                assert(s.take(i as int).last() == s[i - 1]);
                assert(after == sort_by_start(s.take(i as int)));
                assert forall|a: int, b: int| 0 <= a < b < after.len() implies (
                #[trigger] after[a]).clip.start <= (#[trigger] after[b]).clip.start by {
                    assert(after == before.insert(j as int, e@));
                    if a < j {
                        assert(after[a] == before[a]);
                    } else if a == j {
                        assert(after[a] == e@);
                    } else {
                        assert(after[a] == before[a - 1]);
                    }
                    if b < j {
                        assert(after[b] == before[b]);
                    } else if b == j {
                        assert(after[b] == e@);
                    } else {
                        assert(after[b] == before[b - 1]);
                    }
                }
                assert forall|k: int| 0 <= k < i implies s.contains(
                    #[trigger] sorted_entries@[k]@,
                ) by {
                    let ev = entries_view(sorted_entries@);
                    assert(sorted_entries@[k]@ == ev[k]);
                    assert(ev == before.insert(j as int, e@));
                    if k == j {
                        assert(ev[k] == e@);
                        assert(s[i - 1] == e@);
                    } else if k < j {
                        assert(ev[k] == before[k]);
                    } else {
                        assert(ev[k] == before[k - 1]);
                    }
                }
            }
        }
        proof {
            assert(s.take(n as int) =~= s);
        }
        self.animation_states = sorted_entries;
    }

    /// The last entry of this table whose state is `state`, as an owned
    /// copy; `None` when no entry matches. When several entries share a
    /// state, the one latest in table order wins.
    pub fn find_animation_state_by_state(&self, state: BehavioralState) -> (r: Option<
        AnimationState,
    >)
        ensures
            match r {
                Some(e) => find_last(self@.entries, state) == Some(e@),
                None => find_last(self@.entries, state) is None,
            },
    {
        find_last_entry(&self.animation_states, state)
    }

    /// Builds a table from caller-supplied entries and an optional initial
    /// behavioral state.
    ///
    /// The initial state resolves to `Idle` when none is given. The table
    /// starts on the last entry matching the resolved state or, silently,
    /// on the last `Idle` entry when the resolved state has no entry; when
    /// neither lookup succeeds the table cannot start and construction
    /// fails with a [`ConfigurationError`]. The entries are then sorted
    /// ascending by starting frame index (stably: ties keep their supplied
    /// order), and the frame index starts at the current entry's first
    /// frame.
    pub fn setup(
        animation_states: Vec<AnimationState>,
        current_state: Option<BehavioralState>,
    ) -> (r: Result<EntityAnimations, ConfigurationError>)
        requires
            entries_wf(entries_view(animation_states@)),
        ensures
            ({
                let entries = entries_view(animation_states@);
                match initial_entry(entries, resolve_initial(current_state)) {
                    Some(e) => {
                        &&& r is Ok
                        &&& r->Ok_0@ == (TableSpec {
                            entries: sort_by_start(entries),
                            current: e,
                            index: e.clip.start,
                        })
                        &&& r->Ok_0@.wf()
                        &&& r->Ok_0@.current.state is Some
                    },
                    None => r is Err,
                }
            }),
    {
        let ghost entries = entries_view(animation_states@);
        let resolved: BehavioralState = match current_state {
            Some(s) => s,
            None => BehavioralState::Idle,
        };
        let first = find_last_entry(&animation_states, resolved);
        let found = match first {
            Some(e) => Some(e),
            None => find_last_entry(&animation_states, BehavioralState::Idle),
        };
        match found {
            None => Err(ConfigurationError),
            Some(cur) => {
                proof {
                    lemma_find_last_props(entries, resolved);
                    lemma_find_last_props(entries, BehavioralState::Idle);
                    let i = choose|i: int| 0 <= i < entries.len() && entries[i] == cur@;
                    assert(entry_wf(entries[i]));
                }
                let idx = cur.animation().start_index();
                let mut table = EntityAnimations {
                    current_index: idx,
                    animation_states,
                    current_state: cur,
                };
                table.sort_animations();
                proof {
                    assert forall|j: int| 0 <= j < table@.entries.len() implies entry_wf(
                        #[trigger] table@.entries[j],
                    ) by {
                        assert(entries.contains(table@.entries[j]));
                        let i = choose|i: int|
                            0 <= i < entries.len() && entries[i] == table@.entries[j];
                        assert(entry_wf(entries[i]));
                    }
                }
                Ok(table)
            },
        }
    }

    /// Advances the displayed frame by one step; called once per frame-clock
    /// firing. An unset current state is first defensively re-initialized to
    /// the last `Idle` entry. The frame index then steps forward by one;
    /// when it leaves the current clip's range, the current state's entry is
    /// looked up afresh — picking up any state change since the last call —
    /// and the table restarts at that entry's first frame.
    ///
    /// Returns the (possibly wrapped) frame index for the render
    /// collaborator. When a lookup fails the table is left exactly as it
    /// was — the entity freezes on its last valid frame rather than
    /// crashing the tick — and a [`ConfigurationError`] is reported.
    pub fn update_animation(&mut self) -> (r: Result<usize, ConfigurationError>)
        requires
            old(self)@.wf(),
        ensures
            final(self)@.wf(),
            r is Ok <==> advance_ok(old(self)@),
            r is Ok ==> final(self)@ == advance_spec(old(self)@),
            r is Ok ==> r->Ok_0 == final(self)@.index,
            r is Err ==> final(self)@ == old(self)@,
    {
        let ghost t0 = self@;
        // Defensive re-initialization: an unset state resolves to Idle.
        if self.current_behavioral_state().is_none() {
            match self.find_animation_state_by_state(BehavioralState::Idle) {
                Some(e) => {
                    proof {
                        lemma_find_last_props(t0.entries, BehavioralState::Idle);
                        let i = choose|i: int| 0 <= i < t0.entries.len() && t0.entries[i] == e@;
                        assert(entry_wf(t0.entries[i]));
                    }
                    self.current_index = e.animation().start_index();
                    self.current_state = e;
                },
                None => {
                    return Err(ConfigurationError);
                },
            }
        }
        let ghost t1 = self@;
        proof {
            assert(t1 == resolve_current(t0));
            assert(t1.current.state is Some);
            assert(entry_wf(t1.current));
            assert(t1.current.clip.start <= t1.index <= t1.current.clip.start
                + t1.current.clip.span);
        }
        // One frame forward.
        self.current_index = self.current_index + 1;
        let start = self.current_state.animation().start_index();
        let span = self.current_state.animation().span();
        if self.current_index > start + span {
            // The clip overflowed: re-fetch the entry for the current state.
            let current = match self.current_behavioral_state() {
                Some(s) => s,
                None => BehavioralState::Idle,
            };
            proof {
                assert(t1.current.state == Some(current));
            }
            match self.find_animation_state_by_state(current) {
                Some(e) => {
                    proof {
                        lemma_find_last_props(t0.entries, current);
                        let i = choose|i: int| 0 <= i < t0.entries.len() && t0.entries[i] == e@;
                        assert(entry_wf(t0.entries[i]));
                    }
                    self.current_index = e.animation().start_index();
                    self.current_state = e;
                    Ok(self.current_index)
                },
                None => {
                    self.current_index = self.current_index - 1;
                    Err(ConfigurationError)
                },
            }
        } else {
            Ok(self.current_index)
        }
    }

    /// Sets the current behavioral state directly. The frame index and the
    /// playing clip are deliberately not touched: a clip in flight finishes
    /// its remaining frames, and the next frame-advance overflow looks the
    /// new state's clip up lazily.
    pub fn update_state(&mut self, new_entity_state: BehavioralState)
        ensures
            final(self)@ == advance_state_spec(old(self)@, new_entity_state),
            old(self)@.wf() ==> final(self)@.wf(),
    {
        self.current_state.set_state(Some(new_entity_state));
    }

    /// Appends a new entry pairing the clip `[start_index, start_index +
    /// span]` with `state`, then re-sorts the table ascending by starting
    /// frame index. No uniqueness check is made: a state may gain a second
    /// entry, and lookups then prefer the one later in table order.
    pub fn insert_animation(
        &mut self,
        name: String,
        span: usize,
        start_index: usize,
        state: BehavioralState,
    )
        requires
            old(self)@.wf(),
            start_index + span < usize::MAX,
        ensures
            ({
                let e = EntrySpec {
                    clip: ClipSpec { name: name@, start: start_index as int, span: span as int },
                    state: Some(state),
                };
                &&& final(self)@ == (TableSpec {
                    entries: insert_sorted(old(self)@.entries, e),
                    current: old(self)@.current,
                    index: old(self)@.index,
                })
                &&& final(self)@.wf()
            }),
    {
        let ghost t0 = self@;
        let ghost e = EntrySpec {
            clip: ClipSpec { name: name@, start: start_index as int, span: span as int },
            state: Some(state),
        };
        let animation = Animation::new(name, start_index, span);
        self.animation_states.push(AnimationState::new(animation, Some(state)));
        proof {
            assert(entries_view(self.animation_states@) =~= t0.entries.push(e));
        }
        self.sort_animations();
        proof {
            let pushed = t0.entries.push(e);
            assert(pushed.drop_last() =~= t0.entries);
            lemma_sort_by_start_id(t0.entries);
            assert(self@.entries == insert_sorted(t0.entries, e));
            assert forall|j: int| 0 <= j < self@.entries.len() implies entry_wf(
                #[trigger] self@.entries[j],
            ) by {
                assert(pushed.contains(self@.entries[j]));
                let i = choose|i: int| 0 <= i < pushed.len() && pushed[i] == self@.entries[j];
                if i < t0.entries.len() {
                    assert(entry_wf(t0.entries[i]));
                } else {
                    assert(pushed[i] == e);
                }
            }
        }
    }

    /// The last entry of `animation_states` whose state is `state`, without
    /// a table; used while a table is still being constructed.
    pub fn static_find_animation_state_by_state(
        animation_states: Vec<AnimationState>,
        state: BehavioralState,
    ) -> (r: Option<AnimationState>)
        ensures
            match r {
                Some(e) => find_last(entries_view(animation_states@), state) == Some(e@),
                None => find_last(entries_view(animation_states@), state) is None,
            },
    {
        find_last_entry(&animation_states, state)
    }
}

} // verus!
