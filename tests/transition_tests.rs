use moodels::mood::Mood;
use moodels::transitions::{
    update_mood, update_mood_based_on_collisions, update_mood_natural_progression, MoodChange,
    MoodEntity,
};

#[test]
fn crowd_rule_changes_an_unstable_mood() {
    let mut mood = Mood::Happy;
    let mut e = MoodEntity::default();
    let r = update_mood_based_on_collisions(&mut mood, &mut e, 0, 500);
    assert_eq!(r, Some(MoodChange { old: Mood::Happy, new: Mood::Sad }));
    assert_eq!(mood, Mood::Sad);
    assert_eq!(e.mood_stability, 0);
    assert_eq!(e.collision_count, 0);
}

#[test]
fn crowd_rule_waits_for_its_timer() {
    let mut mood = Mood::Happy;
    let mut e = MoodEntity::default();
    let r = update_mood_based_on_collisions(&mut mood, &mut e, 7, 200);
    assert_eq!(r, None);
    assert_eq!(mood, Mood::Happy);
    assert_eq!(e.collision_count, 7);
}

#[test]
fn crowd_rule_respects_debounce() {
    let mut mood = Mood::Happy;
    let mut e = MoodEntity::default();
    e.mood_stability = 1500;
    let r = update_mood_based_on_collisions(&mut mood, &mut e, 7, 500);
    assert_eq!(r, None);
    assert_eq!(mood, Mood::Happy);
    assert_eq!(e.mood_stability, 1500);
}

#[test]
fn crowd_rule_ignores_a_matching_crowd() {
    let mut mood = Mood::Calm;
    let mut e = MoodEntity::default();
    let r = update_mood_based_on_collisions(&mut mood, &mut e, 2, 500);
    assert_eq!(r, None);
    assert_eq!(mood, Mood::Calm);
}

#[test]
fn crowd_rule_does_not_change_again_inside_the_window() {
    let mut mood = Mood::Happy;
    let mut e = MoodEntity::default();
    let first = update_mood(&mut mood, &mut e, 0, 500);
    assert_eq!(first.0, Some(MoodChange { old: Mood::Happy, new: Mood::Sad }));
    assert_eq!(e.mood_stability, 500);
    assert!(e.changed_by_crowd);
    let second = update_mood(&mut mood, &mut e, 1, 500);
    assert_eq!(second.0, None);
    let third = update_mood(&mut mood, &mut e, 7, 500);
    assert_eq!(third.0, None);
    assert_eq!(mood, Mood::Sad);
}

#[test]
fn crowd_rule_may_follow_a_cyclic_change() {
    let mut mood = Mood::Happy;
    let mut e = MoodEntity::default();
    update_mood(&mut mood, &mut e, 0, 500);
    assert_eq!(mood, Mood::Sad);
    e.next_cycle_progression.elapsed = 7_900;
    let (_, cyc) = update_mood(&mut mood, &mut e, 0, 100);
    assert_eq!(cyc, Some(MoodChange { old: Mood::Sad, new: Mood::Rage }));
    assert!(!e.changed_by_crowd);
    let (crowd, _) = update_mood(&mut mood, &mut e, 1, 400);
    assert_eq!(crowd, Some(MoodChange { old: Mood::Rage, new: Mood::Calm }));
}

#[test]
fn cyclic_rule_overrides_regardless_of_stability() {
    let mut mood = Mood::Happy;
    let mut e = MoodEntity::default();
    e.mood_stability = 100_000;
    e.next_cycle_progression.elapsed = 7900;
    let r = update_mood_natural_progression(&mut mood, &mut e, 100);
    assert_eq!(r, Some(MoodChange { old: Mood::Happy, new: Mood::Calm }));
    assert_eq!(e.mood_stability, 0);
}

#[test]
fn cyclic_rule_runs_after_the_crowd_rule() {
    let mut mood = Mood::Happy;
    let mut e = MoodEntity::default();
    e.next_cycle_progression.elapsed = 7600;
    let (a, b) = update_mood(&mut mood, &mut e, 7, 500);
    assert_eq!(a, Some(MoodChange { old: Mood::Happy, new: Mood::Rage }));
    assert_eq!(b, Some(MoodChange { old: Mood::Rage, new: Mood::Happy }));
    assert_eq!(mood, Mood::Happy);
    assert_eq!(e.mood_stability, 0);
}

#[test]
fn stability_accumulates_without_changes() {
    let mut mood = Mood::Calm;
    let mut e = MoodEntity::default();
    update_mood(&mut mood, &mut e, 1, 300);
    update_mood(&mut mood, &mut e, 1, 300);
    assert_eq!(e.mood_stability, 600);
    assert_eq!(mood, Mood::Calm);
}

#[test]
fn stable_mood_ignores_changing_crowds() {
    let mut mood = Mood::Calm;
    let mut e = MoodEntity::default();
    e.mood_stability = 1500;
    for count in [0usize, 7, 3, 0, 9, 4] {
        let (crowd, cycle) = update_mood(&mut mood, &mut e, count, 500);
        assert_eq!(crowd, None);
        assert_eq!(cycle, None);
    }
    assert_eq!(mood, Mood::Calm);
    assert_eq!(e.mood_stability, 4500);
}
