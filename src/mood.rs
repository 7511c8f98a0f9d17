//! Moods: the emotional state of an agent and the pure rules attached to it.
use vstd::prelude::*;

use crate::chance::draw_below;

verus! {

/// The emotional state of an agent.
#[derive(Clone, Copy, Debug, PartialEq, Eq, Hash, Structural)]
pub enum Mood {
    Neutral,
    Calm,
    Happy,
    Rage,
    Sad,
}

/// A display colour, each channel in thousandths (0..=1000).
#[derive(Clone, Copy, Debug, PartialEq, Eq, Structural)]
pub struct MoodColor {
    pub r: u16,
    pub g: u16,
    pub b: u16,
}

/// Successor of a mood in the natural cycle Happy -> Calm -> Sad -> Rage -> Happy;
/// Neutral leaves the cycle towards Happy.
pub open spec fn spec_next_in_cycle(m: Mood) -> Mood {
    match m {
        Mood::Neutral => Mood::Happy,
        Mood::Happy => Mood::Calm,
        Mood::Calm => Mood::Sad,
        Mood::Sad => Mood::Rage,
        Mood::Rage => Mood::Happy,
    }
}

/// The mood reached after `n` cyclic progressions.
pub open spec fn cycle_iterate(m: Mood, n: nat) -> Mood
    decreases n,
{
    if n == 0 {
        m
    } else {
        spec_next_in_cycle(cycle_iterate(m, (n - 1) as nat))
    }
}

/// Speed multiplier of a mood, in thousandths.
pub open spec fn spec_speed_multiplier(m: Mood) -> u32 {
    match m {
        Mood::Neutral => 750,
        Mood::Calm => 500,
        Mood::Happy => 1000,
        Mood::Rage => 1500,
        Mood::Sad => 375,
    }
}

/// Asymmetric attraction of an agent in mood `me` towards a neighbour in mood
/// `other`, in thousandths. Positive attracts, negative repels.
pub open spec fn spec_attraction(me: Mood, other: Mood) -> int {
    match (me, other) {
        (Mood::Happy, Mood::Happy) => 1000,
        (Mood::Happy, Mood::Calm) => 300,
        (Mood::Sad, Mood::Sad) => 500,
        (Mood::Sad, Mood::Happy) => -800,
        (Mood::Sad, Mood::Rage) => -1000,
        (Mood::Rage, Mood::Rage) => -1000,
        (Mood::Rage, Mood::Sad) => -1000,
        (Mood::Rage, _) => 200,
        (Mood::Calm, Mood::Calm) => 200,
        (Mood::Neutral, _) => -100,
        _ => 0,
    }
}

/// The mood that a crowd of `n` touching neighbours pushes an agent towards.
pub open spec fn spec_crowd_mood(n: nat) -> Mood {
    if n == 0 {
        Mood::Sad
    } else if n <= 2 {
        Mood::Calm
    } else if n <= 5 {
        Mood::Happy
    } else {
        Mood::Rage
    }
}

/// The moods in declaration order.
pub open spec fn spec_all_moods() -> Seq<Mood> {
    seq![Mood::Neutral, Mood::Calm, Mood::Happy, Mood::Rage, Mood::Sad]
}

impl Mood {
    /// Movement speed multiplier, in thousandths of the base speed.
    pub fn speed_multiplier(self) -> (r: u32)
        ensures
            r == spec_speed_multiplier(self),
    {
        match self {
            Mood::Neutral => 750,
            Mood::Calm => 500,
            Mood::Happy => 1000,
            Mood::Rage => 1500,
            Mood::Sad => 375,
        }
    }

    /// Display colour of the mood.
    pub fn color(self) -> (r: MoodColor)
        ensures
            self == Mood::Neutral ==> r == (MoodColor { r: 800, g: 800, b: 800 }),
            self == Mood::Calm ==> r == (MoodColor { r: 300, g: 600, b: 1000 }),
            self == Mood::Happy ==> r == (MoodColor { r: 1000, g: 900, b: 200 }),
            self == Mood::Rage ==> r == (MoodColor { r: 1000, g: 200, b: 200 }),
            self == Mood::Sad ==> r == (MoodColor { r: 600, g: 400, b: 800 }),
    {
        match self {
            Mood::Neutral => MoodColor { r: 800, g: 800, b: 800 },
            Mood::Calm => MoodColor { r: 300, g: 600, b: 1000 },
            Mood::Happy => MoodColor { r: 1000, g: 900, b: 200 },
            Mood::Rage => MoodColor { r: 1000, g: 200, b: 200 },
            Mood::Sad => MoodColor { r: 600, g: 400, b: 800 },
        }
    }

    /// Every mood, in declaration order.
    pub fn all() -> (r: [Mood; 5])
        ensures
            r@ == spec_all_moods(),
    {
        let r = [Mood::Neutral, Mood::Calm, Mood::Happy, Mood::Rage, Mood::Sad];
        assert(r@ =~= spec_all_moods());
        r
    }

    /// The next mood in the natural cycle.
    pub fn next_in_cycle(self) -> (r: Mood)
        ensures
            r == spec_next_in_cycle(self),
    {
        match self {
            Mood::Neutral => Mood::Happy,
            Mood::Happy => Mood::Calm,
            Mood::Calm => Mood::Sad,
            Mood::Sad => Mood::Rage,
            Mood::Rage => Mood::Happy,
        }
    }

    /// The mood at position `i` of [`Mood::all`].
    pub fn from_index(i: usize) -> (r: Mood)
        requires
            i < 5,
        ensures
            r == spec_all_moods()[i as int],
    {
        let moods = Mood::all();
        moods[i]
    }

    /// A mood drawn uniformly at random.
    pub fn random() -> (r: Mood)
        ensures
            spec_all_moods().contains(r),
    {
        let i = draw_below(5);
        let r = Mood::from_index(i as usize);
        assert(spec_all_moods()[i as int] == r);
        r
    }
}

/// Attraction factor of `my_mood` towards `other_mood`, in thousandths.
pub fn get_attraction_factor(my_mood: Mood, other_mood: Mood) -> (r: i64)
    ensures
        r == spec_attraction(my_mood, other_mood),
{
    match (my_mood, other_mood) {
        (Mood::Happy, Mood::Happy) => 1000,
        (Mood::Happy, Mood::Calm) => 300,
        (Mood::Sad, Mood::Sad) => 500,
        (Mood::Sad, Mood::Happy) => -800,
        (Mood::Sad, Mood::Rage) => -1000,
        (Mood::Rage, Mood::Rage) => -1000,
        (Mood::Rage, Mood::Sad) => -1000,
        (Mood::Rage, _) => 200,
        (Mood::Calm, Mood::Calm) => 200,
        (Mood::Neutral, _) => -100,
        _ => 0,
    }
}

/// The mood that `collision_count` touching neighbours push an agent towards:
/// none is lonely (Sad), one or two is comfortable (Calm), three to five is
/// lively (Happy), six or more is overwhelming (Rage).
pub fn crowd_mood(collision_count: usize) -> (r: Mood)
    ensures
        r == spec_crowd_mood(collision_count as nat),
{
    if collision_count == 0 {
        Mood::Sad
    } else if collision_count <= 2 {
        Mood::Calm
    } else if collision_count <= 5 {
        Mood::Happy
    } else {
        Mood::Rage
    }
}

/// The natural cycle has period four: four progressions bring any mood but
/// Neutral back to itself, and no fewer do.
pub proof fn lemma_cycle_period(m: Mood, k: nat)
    requires
        m != Mood::Neutral,
    ensures
        cycle_iterate(m, 4) == m,
        1 <= k < 4 ==> cycle_iterate(m, k) != m,
{
    reveal_with_fuel(cycle_iterate, 5);
}

/// Whatever the starting mood, one progression leaves Neutral behind for good.
pub proof fn lemma_cycle_never_returns_to_neutral(m: Mood, k: nat)
    requires
        k >= 1,
    ensures
        cycle_iterate(m, k) != Mood::Neutral,
    decreases k,
{
    if k > 1 {
        lemma_cycle_never_returns_to_neutral(m, (k - 1) as nat);
    }
}

} // verus!
