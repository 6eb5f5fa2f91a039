use sprite_animation::animation::{Animation, AnimationState};
use sprite_animation::state::BehavioralState;
use sprite_animation::table::EntityAnimations;

fn entry(name: &str, start_index: usize, span: usize, state: BehavioralState) -> AnimationState {
    AnimationState::new(Animation::new(name.to_string(), start_index, span), Some(state))
}

/// The clips of the sample character: supplied unsorted, keyed by state.
fn sample_entries() -> Vec<AnimationState> {
    vec![
        entry("idle", 56, 3, BehavioralState::Idle),
        entry("walk", 112, 4, BehavioralState::Walking),
        entry("attack", 21, 5, BehavioralState::Attack),
        entry("on-hit", 0, 3, BehavioralState::OnHit),
        entry("death", 31, 1, BehavioralState::Death),
    ]
}

fn two_clip_entries() -> Vec<AnimationState> {
    vec![
        entry("idle", 56, 3, BehavioralState::Idle),
        entry("walk", 112, 4, BehavioralState::Walking),
    ]
}

#[test]
fn scenario_idle_wrap() {
    // Entries idle {start 56, span 3} and walking {start 112, span 4},
    // starting Idle: four advances walk the clip and wrap, 57, 58, 59, 56.
    let mut table = EntityAnimations::setup(two_clip_entries(), Some(BehavioralState::Idle))
        .unwrap();
    assert_eq!(table.current_index(), 56);
    assert_eq!(table.update_animation().unwrap(), 57);
    assert_eq!(table.update_animation().unwrap(), 58);
    assert_eq!(table.update_animation().unwrap(), 59);
    assert_eq!(table.update_animation().unwrap(), 56);
}

#[test]
fn scenario_state_switch_mid_clip() {
    // Switching to Walking after one advance does not move the index; the
    // idle clip finishes, then the overflow re-checks the state and jumps
    // to the walking clip's first frame: 57, 58, 59, 112.
    let mut table = EntityAnimations::setup(two_clip_entries(), Some(BehavioralState::Idle))
        .unwrap();
    assert_eq!(table.update_animation().unwrap(), 57);
    table.update_state(BehavioralState::Walking);
    assert_eq!(table.current_index(), 57);
    assert_eq!(table.update_animation().unwrap(), 58);
    assert_eq!(table.update_animation().unwrap(), 59);
    assert_eq!(table.update_animation().unwrap(), 112);
    assert_eq!(table.update_animation().unwrap(), 113);
}

#[test]
fn scenario_construction_rejects_unmatchable_state() {
    // A single Attack entry cannot start a table asked to begin Idle: no
    // fallback entry exists either, so construction fails.
    let entries = vec![entry("attack", 21, 5, BehavioralState::Attack)];
    let result = EntityAnimations::setup(entries, Some(BehavioralState::Idle));
    assert!(result.is_err());
}

#[test]
fn construction_defaults_to_idle() {
    // No initial state resolves to Idle: the table starts on the Idle
    // entry's first frame.
    let table = EntityAnimations::setup(sample_entries(), None).unwrap();
    assert_eq!(table.current_behavioral_state(), Some(BehavioralState::Idle));
    assert_eq!(table.current_index(), 56);
}

#[test]
fn construction_falls_back_when_state_missing() {
    // A requested state with no entry silently falls back to Idle.
    let result = EntityAnimations::setup(two_clip_entries(), Some(BehavioralState::Death))
        .unwrap();
    assert_eq!(result.current_behavioral_state(), Some(BehavioralState::Idle));
    assert_eq!(result.current_index(), 56);
}

#[test]
fn construction_rejects_empty_table() {
    let result = EntityAnimations::setup(Vec::new(), None);
    assert!(result.is_err());
}

#[test]
fn construction_sorts_entries_by_start_index() {
    // Supplied unsorted, the entries come out ascending by starting index:
    // on-hit 0, attack 21, death 31, idle 56, walk 112.
    let table = EntityAnimations::setup(sample_entries(), None).unwrap();
    assert_eq!(table.animations_len(), 5);
    let starts: Vec<usize> = (0..5).map(|i| table.animation_at(i).animation().start_index()).collect();
    assert_eq!(starts, vec![0, 21, 31, 56, 112]);
    assert_eq!(table.animation_at(0).animation().name().as_str(), "on-hit");
    assert_eq!(table.animation_at(4).animation().name().as_str(), "walk");
}

#[test]
fn find_returns_last_match() {
    // Two entries for Idle: the lookup returns the one later in table
    // order, here the one with the larger starting index.
    let entries = vec![
        entry("idle-old", 10, 2, BehavioralState::Idle),
        entry("idle-new", 90, 2, BehavioralState::Idle),
    ];
    let table = EntityAnimations::setup(entries, None).unwrap();
    let found = table.find_animation_state_by_state(BehavioralState::Idle).unwrap();
    assert_eq!(found.animation().name().as_str(), "idle-new");
    assert_eq!(found.animation().start_index(), 90);
}

#[test]
fn find_misses_absent_state() {
    let table = EntityAnimations::setup(two_clip_entries(), None).unwrap();
    assert!(table.find_animation_state_by_state(BehavioralState::Death).is_none());
}

#[test]
fn static_find_returns_last_match() {
    let entries = vec![
        entry("attack-a", 40, 2, BehavioralState::Attack),
        entry("idle", 56, 3, BehavioralState::Idle),
        entry("attack-b", 20, 2, BehavioralState::Attack),
    ];
    let found = EntityAnimations::static_find_animation_state_by_state(
        entries,
        BehavioralState::Attack,
    )
    .unwrap();
    // Forward scan, last match wins: the entry supplied last.
    assert_eq!(found.animation().name().as_str(), "attack-b");
    assert!(
        EntityAnimations::static_find_animation_state_by_state(Vec::new(), BehavioralState::Idle)
            .is_none()
    );
}

#[test]
fn insert_overrides_lookup() {
    // Inserting a second Walking entry with a larger start index makes it
    // the entry that a lookup returns: the override mechanism.
    let mut table = EntityAnimations::setup(two_clip_entries(), None).unwrap();
    table.insert_animation("walk-override".to_string(), 2, 200, BehavioralState::Walking);
    let found = table.find_animation_state_by_state(BehavioralState::Walking).unwrap();
    assert_eq!(found.animation().name().as_str(), "walk-override");
    assert_eq!(found.animation().start_index(), 200);
}

#[test]
fn insert_keeps_table_sorted() {
    let mut table = EntityAnimations::setup(two_clip_entries(), None).unwrap();
    table.insert_animation("mid".to_string(), 1, 80, BehavioralState::Attack);
    table.insert_animation("front".to_string(), 1, 3, BehavioralState::OnHit);
    let starts: Vec<usize> = (0..4).map(|i| table.animation_at(i).animation().start_index()).collect();
    assert_eq!(starts, vec![3, 56, 80, 112]);
}

#[test]
fn insert_with_smaller_start_does_not_override() {
    // An insert landing earlier in the sorted order loses the lookup to the
    // same-state entry that sorts later: last match in table order wins.
    let mut table = EntityAnimations::setup(two_clip_entries(), None).unwrap();
    table.insert_animation("walk-early".to_string(), 1, 5, BehavioralState::Walking);
    let found = table.find_animation_state_by_state(BehavioralState::Walking).unwrap();
    assert_eq!(found.animation().name().as_str(), "walk");
    assert_eq!(found.animation().start_index(), 112);
}

#[test]
fn advance_freezes_on_missing_entry() {
    // A state with no entry: the overflow lookup fails, the advance reports
    // the error, and the index freezes on the clip's last valid frame.
    let mut table =
        EntityAnimations::setup(vec![entry("idle", 56, 3, BehavioralState::Idle)], None).unwrap();
    table.update_state(BehavioralState::Walking);
    assert_eq!(table.update_animation().unwrap(), 57);
    assert_eq!(table.update_animation().unwrap(), 58);
    assert_eq!(table.update_animation().unwrap(), 59);
    assert!(table.update_animation().is_err());
    assert_eq!(table.current_index(), 59);
    assert!(table.update_animation().is_err());
    assert_eq!(table.current_index(), 59);
}

#[test]
fn update_state_keeps_clip_and_index() {
    let mut table = EntityAnimations::setup(two_clip_entries(), None).unwrap();
    table.update_state(BehavioralState::Walking);
    assert_eq!(table.current_behavioral_state(), Some(BehavioralState::Walking));
    // The playing clip is still the idle one until the next overflow.
    assert_eq!(table.current_animation().name().as_str(), "idle");
    assert_eq!(table.current_index(), 56);
}

#[test]
fn full_cycle_returns_to_start() {
    // Monotonic wrap on the full sample character: span + 1 advances from
    // the clip's first frame return exactly to that first frame.
    let mut table = EntityAnimations::setup(sample_entries(), Some(BehavioralState::Attack))
        .unwrap();
    assert_eq!(table.current_index(), 21);
    for expected in [22, 23, 24, 25, 26, 21] {
        assert_eq!(table.update_animation().unwrap(), expected);
    }
}

#[test]
fn placeholder_entries_never_match() {
    // An entry tied to no state is a defensive placeholder: construction
    // and lookups pass over it.
    let placeholder = AnimationState::new(Animation::new("placeholder".to_string(), 5, 1), None);
    let entries = vec![placeholder, entry("idle", 56, 3, BehavioralState::Idle)];
    let table = EntityAnimations::setup(entries, None).unwrap();
    assert_eq!(table.current_behavioral_state(), Some(BehavioralState::Idle));
    assert_eq!(table.current_index(), 56);
    assert_eq!(table.animations_len(), 2);
    assert!(table.find_animation_state_by_state(BehavioralState::Walking).is_none());
}

#[test]
fn placeholder_only_table_is_rejected() {
    // With no entry tied to any state there is nothing to start on.
    let placeholder = AnimationState::new(Animation::new("placeholder".to_string(), 5, 1), None);
    assert!(EntityAnimations::setup(vec![placeholder], None).is_err());
}

#[test]
fn sort_is_stable_for_equal_start_indices() {
    // Entries sharing a starting index keep the order they were supplied in.
    let entries = vec![
        entry("first", 50, 1, BehavioralState::Idle),
        entry("second", 50, 2, BehavioralState::Walking),
        entry("third", 50, 3, BehavioralState::Attack),
    ];
    let table = EntityAnimations::setup(entries, None).unwrap();
    let names: Vec<String> =
        (0..3).map(|i| table.animation_at(i).animation().name().clone()).collect();
    assert_eq!(names, vec!["first", "second", "third"]);
}

#[test]
fn insert_with_equal_start_lands_after_existing() {
    let mut table = EntityAnimations::setup(two_clip_entries(), None).unwrap();
    table.insert_animation("tie".to_string(), 1, 56, BehavioralState::Attack);
    let names: Vec<String> =
        (0..3).map(|i| table.animation_at(i).animation().name().clone()).collect();
    assert_eq!(names, vec!["idle", "tie", "walk"]);
}

#[test]
fn entry_accessors_round_trip() {
    let animation = Animation::new("death".to_string(), 31, 1);
    assert_eq!(animation.name().as_str(), "death");
    assert_eq!(animation.start_index(), 31);
    assert_eq!(animation.span(), 1);
    let copy = animation.duplicate();
    assert_eq!(copy.name().as_str(), "death");
    assert_eq!(copy.start_index(), 31);
    assert_eq!(copy.span(), 1);
    let mut e = AnimationState::new(copy, None);
    assert_eq!(e.state(), None);
    e.set_state(Some(BehavioralState::Death));
    assert_eq!(e.state(), Some(BehavioralState::Death));
    let d = e.duplicate();
    assert_eq!(d.state(), Some(BehavioralState::Death));
    assert_eq!(d.animation().name().as_str(), "death");
}
