use moodels::mood::{crowd_mood, get_attraction_factor, Mood, MoodColor};

#[test]
fn next_in_cycle_follows_the_cycle() {
    assert_eq!(Mood::Neutral.next_in_cycle(), Mood::Happy);
    assert_eq!(Mood::Happy.next_in_cycle(), Mood::Calm);
    assert_eq!(Mood::Calm.next_in_cycle(), Mood::Sad);
    assert_eq!(Mood::Sad.next_in_cycle(), Mood::Rage);
    assert_eq!(Mood::Rage.next_in_cycle(), Mood::Happy);
}

#[test]
fn cycle_returns_after_four_progressions() {
    for start in [Mood::Happy, Mood::Calm, Mood::Sad, Mood::Rage] {
        let mut m = start;
        for step in 1..=4 {
            m = m.next_in_cycle();
            if step < 4 {
                assert_ne!(m, start);
            }
            assert_ne!(m, Mood::Neutral);
        }
        assert_eq!(m, start);
    }
}

#[test]
fn five_progressions_do_not_return_to_the_start() {
    let mut m = Mood::Happy;
    for _ in 0..5 {
        m = m.next_in_cycle();
    }
    assert_eq!(m, Mood::Calm);
    let mut n = Mood::Neutral;
    for _ in 0..5 {
        n = n.next_in_cycle();
    }
    assert_eq!(n, Mood::Happy);
}

#[test]
fn speed_multipliers() {
    assert_eq!(Mood::Neutral.speed_multiplier(), 750);
    assert_eq!(Mood::Calm.speed_multiplier(), 500);
    assert_eq!(Mood::Happy.speed_multiplier(), 1000);
    assert_eq!(Mood::Rage.speed_multiplier(), 1500);
    assert_eq!(Mood::Sad.speed_multiplier(), 375);
}

#[test]
fn colors() {
    assert_eq!(Mood::Calm.color(), MoodColor { r: 300, g: 600, b: 1000 });
    assert_eq!(Mood::Rage.color(), MoodColor { r: 1000, g: 200, b: 200 });
    assert_eq!(Mood::Neutral.color(), MoodColor { r: 800, g: 800, b: 800 });
}

#[test]
fn all_lists_every_mood_in_order() {
    assert_eq!(
        Mood::all(),
        [Mood::Neutral, Mood::Calm, Mood::Happy, Mood::Rage, Mood::Sad]
    );
    assert_eq!(Mood::from_index(3), Mood::Rage);
}

#[test]
fn random_moods_are_moods_and_vary() {
    let mut seen = Vec::new();
    for _ in 0..300 {
        let m = Mood::random();
        assert!(Mood::all().contains(&m));
        if !seen.contains(&m) {
            seen.push(m);
        }
    }
    assert!(seen.len() > 1);
}

#[test]
fn attraction_is_asymmetric() {
    assert_eq!(get_attraction_factor(Mood::Sad, Mood::Happy), -800);
    assert_eq!(get_attraction_factor(Mood::Happy, Mood::Sad), 0);
    assert_eq!(get_attraction_factor(Mood::Happy, Mood::Happy), 1000);
    assert_eq!(get_attraction_factor(Mood::Happy, Mood::Calm), 300);
    assert_eq!(get_attraction_factor(Mood::Rage, Mood::Calm), 200);
    assert_eq!(get_attraction_factor(Mood::Rage, Mood::Sad), -1000);
    assert_eq!(get_attraction_factor(Mood::Neutral, Mood::Rage), -100);
    assert_eq!(get_attraction_factor(Mood::Calm, Mood::Calm), 200);
    assert_eq!(get_attraction_factor(Mood::Calm, Mood::Rage), 0);
}

#[test]
fn crowd_bands() {
    assert_eq!(crowd_mood(0), Mood::Sad);
    assert_eq!(crowd_mood(1), Mood::Calm);
    assert_eq!(crowd_mood(2), Mood::Calm);
    assert_eq!(crowd_mood(3), Mood::Happy);
    assert_eq!(crowd_mood(5), Mood::Happy);
    assert_eq!(crowd_mood(6), Mood::Rage);
    assert_eq!(crowd_mood(usize::MAX), Mood::Rage);
}
