//! Engine-wide laws relating the table operations, stated over the tables'
//! mathematical models and proved once for every well-formed table.

use vstd::prelude::*;

use crate::animation::EntrySpec;
use crate::state::BehavioralState;
use crate::table::{
    advance_n, advance_spec, advance_state_spec, find_last, insert_sorted, resolve_current,
    TableSpec,
};

verus! {

/// While the incremented frame index stays inside the current clip, a frame
/// advance only steps the index; entries and current entry are untouched.
proof fn lemma_advance_within_clip(t: TableSpec, j: nat)
    requires
        t.wf(),
        t.current.state is Some,
        t.index + j <= t.current.clip.start + t.current.clip.span,
    ensures
        advance_n(t, j) == (TableSpec {
            entries: t.entries,
            current: t.current,
            index: t.index + j,
        }),
    decreases j,
{
    if j == 0 {
        assert(advance_n(t, 0) == t);
        assert(t == (TableSpec { entries: t.entries, current: t.current, index: t.index }));
    } else {
        lemma_advance_within_clip(t, (j - 1) as nat);
        let prev = advance_n(t, (j - 1) as nat);
        assert(resolve_current(prev) == prev);
        assert(advance_n(t, j) == advance_spec(prev));
    }
}

/// Monotonic wrap: starting a clip at its first frame, `span + 1` frame
/// advances with no intervening state change walk the clip once and return
/// the index to the first frame of the current state's re-looked-up entry.
/// The entries themselves never change.
pub proof fn lemma_monotonic_wrap(t: TableSpec)
    requires
        t.wf(),
        t.current.state is Some,
        t.index == t.current.clip.start,
        find_last(t.entries, t.current.state->0) is Some,
    ensures
        ({
            let e = find_last(t.entries, t.current.state->0)->0;
            advance_n(t, (t.current.clip.span + 1) as nat) == (TableSpec {
                entries: t.entries,
                current: e,
                index: e.clip.start,
            })
        }),
{
    let span = t.current.clip.span;
    lemma_advance_within_clip(t, span as nat);
    let last = advance_n(t, span as nat);
    assert(resolve_current(last) == last);
    assert(advance_n(t, (span + 1) as nat) == advance_spec(last));
}

/// State lag: switching the behavioral state mid-clip leaves the frame
/// index alone; the remaining frames of the in-flight clip still play, and
/// only the overflow after its last frame jumps to the new state's entry.
pub proof fn lemma_state_lag(t: TableSpec, s2: BehavioralState)
    requires
        t.wf(),
        t.current.state is Some,
        t.index < t.current.clip.start + t.current.clip.span,
        find_last(t.entries, s2) is Some,
    ensures
        ({
            let switched = advance_state_spec(t, s2);
            let remaining = (t.current.clip.start + t.current.clip.span - t.index) as nat;
            let e = find_last(t.entries, s2)->0;
            &&& switched.index == t.index
            &&& forall|j: nat|
                j <= remaining ==> (#[trigger] advance_n(switched, j)).index == t.index + j
            &&& advance_n(switched, (remaining + 1) as nat) == (TableSpec {
                entries: t.entries,
                current: e,
                index: e.clip.start,
            })
        }),
{
    let switched = advance_state_spec(t, s2);
    let remaining = (t.current.clip.start + t.current.clip.span - t.index) as nat;
    assert(switched.wf());
    assert forall|j: nat| j <= remaining implies (#[trigger] advance_n(switched, j)).index
        == t.index + j by {
        lemma_advance_within_clip(switched, j);
    }
    lemma_advance_within_clip(switched, remaining);
    let last = advance_n(switched, remaining);
    assert(resolve_current(last) == last);
    assert(advance_n(switched, (remaining + 1) as nat) == advance_spec(last));
}

/// Last-match override: inserting an entry for state `s` whose starting
/// index is at least that of every existing entry for `s` makes it the
/// entry that a lookup of `s` returns — the entry inserted last wins.
/// (An insert whose starting index is below an existing same-state entry's
/// lands earlier in the sorted order, and the later entry keeps winning.)
pub proof fn lemma_insert_last_match(entries: Seq<EntrySpec>, e: EntrySpec, s: BehavioralState)
    requires
        e.state == Some(s),
        forall|i: int|
            0 <= i < entries.len() && (#[trigger] entries[i]).state == Some(s)
                ==> entries[i].clip.start <= e.clip.start,
    ensures
        find_last(insert_sorted(entries, e), s) == Some(e),
    decreases entries.len(),
{
    if entries.len() == 0 {
        assert(insert_sorted(entries, e) == seq![e]);
        assert(seq![e].last() == e);
    } else if entries.last().clip.start <= e.clip.start {
        assert(entries.push(e).last() == e);
    } else {
        assert(entries[entries.len() - 1].clip.start > e.clip.start);
        assert(entries.last().state != Some(s));
        assert forall|i: int|
            0 <= i < entries.drop_last().len() && (#[trigger] entries.drop_last()[i]).state
                == Some(s) implies entries.drop_last()[i].clip.start <= e.clip.start by {
            assert(entries[i].state == Some(s));
        }
        lemma_insert_last_match(entries.drop_last(), e, s);
        let inner = insert_sorted(entries.drop_last(), e);
        let outer = inner.push(entries.last());
        assert(outer.last() == entries.last());
        assert(outer.drop_last() =~= inner);
        assert(find_last(outer, s) == find_last(inner, s));
    }
}

} // verus!
