//! Point values of a round.
//!
//! The first correct answer of a round is worth [`FIRST_POINTS`]. Every later
//! correct answer is worth ten elevenths of the one before it, rounded down,
//! and never less than one point.

use vstd::prelude::*;

verus! {

/// Points credited to the first correct answer of a round.
pub const FIRST_POINTS: u32 = 1000;

/// The value that follows `points`: `floor(points * 10 / 11)`, but at least 1.
pub open spec fn decayed(points: nat) -> nat {
    if points * 10 / 11 >= 1 {
        points * 10 / 11
    } else {
        1
    }
}

/// Points credited to the correct answer that arrives after `rank` earlier
/// correct answers.
pub open spec fn points_at(rank: nat) -> nat
    decreases rank,
{
    if rank == 0 {
        FIRST_POINTS as nat
    } else {
        decayed(points_at((rank - 1) as nat))
    }
}

/// Every point value lies between 1 and [`FIRST_POINTS`].
pub proof fn lemma_points_bounds(rank: nat)
    ensures
        1 <= points_at(rank) <= FIRST_POINTS,
    decreases rank,
{
    if rank > 0 {
        lemma_points_bounds((rank - 1) as nat);
    }
}

/// Point values never increase with the arrival rank.
pub proof fn lemma_points_non_increasing(earlier: nat, later: nat)
    requires
        earlier <= later,
    ensures
        points_at(later) <= points_at(earlier),
    decreases later,
{
    if earlier < later {
        lemma_points_non_increasing(earlier, (later - 1) as nat);
        lemma_points_bounds((later - 1) as nat);
    }
}

/// The first correct answer of a round is worth exactly 1000 points.
pub proof fn lemma_first_points()
    ensures
        points_at(0) == 1000,
{
}

/// Computes the value that follows `points` in the decay.
pub fn next_points(points: u32) -> (next: u32)
    ensures
        next == decayed(points as nat),
{
    let wide: u64 = points as u64;
    let scaled: u64 = wide * 10 / 11;
    if scaled >= 1 {
        scaled as u32
    } else {
        1
    }
}

/// Points earned by one player in one round.
#[derive(Debug, PartialEq, Eq)]
pub struct PointGain {
    pub username: String,
    pub points: u32,
}

impl Clone for PointGain {
    /// The copy holds the same name and points.
    fn clone(&self) -> (copy: Self)
        ensures
            copy.username@ == self.username@,
            copy.points == self.points,
    {
        PointGain { username: self.username.clone(), points: self.points }
    }
}

/// The point gains of a round as mathematical pairs of name and points.
pub open spec fn gain_pairs(entries: Seq<PointGain>) -> Seq<(Seq<char>, nat)> {
    Seq::new(entries.len(), |i: int| (entries[i].username@, entries[i].points as nat))
}

/// The points that `gains` holds for `username`, if it holds any. Where
/// several pairs carry the name, the earliest one counts.
pub open spec fn gain_of(gains: Seq<(Seq<char>, nat)>, username: Seq<char>) -> Option<nat>
    decreases gains.len(),
{
    if gains.len() == 0 {
        None
    } else if gains.first().0 == username {
        Some(gains.first().1)
    } else {
        gain_of(gains.drop_first(), username)
    }
}

/// No two pairs of `gains` carry the same name.
pub open spec fn distinct_names(gains: Seq<(Seq<char>, nat)>) -> bool {
    forall|i: int, j: int|
        0 <= i < j < gains.len() ==> (#[trigger] gains[i]).0 != (#[trigger] gains[j]).0
}

/// Appending a pair changes the points of its own name only, and only where
/// the name had none before.
pub proof fn lemma_gain_of_push(
    gains: Seq<(Seq<char>, nat)>,
    username: Seq<char>,
    points: nat,
    who: Seq<char>,
)
    ensures
        gain_of(gains.push((username, points)), who) == if gain_of(gains, who) is Some {
            gain_of(gains, who)
        } else if who == username {
            Some(points)
        } else {
            None
        },
    decreases gains.len(),
{
    let extended = gains.push((username, points));
    if gains.len() == 0 {
        assert(extended.drop_first().len() == 0);
    } else {
        assert(extended.first() == gains.first());
        assert(extended.drop_first() =~= gains.drop_first().push((username, points)));
        lemma_gain_of_push(gains.drop_first(), username, points, who);
    }
}

/// Every pair gives its name points; under distinct names, its own.
pub proof fn lemma_gain_of_index(gains: Seq<(Seq<char>, nat)>, i: int)
    requires
        0 <= i < gains.len(),
    ensures
        gain_of(gains, gains[i].0) is Some,
        distinct_names(gains) ==> gain_of(gains, gains[i].0) == Some(gains[i].1),
    decreases gains.len(),
{
    if i > 0 {
        let rest = gains.drop_first();
        assert(rest[i - 1] == gains[i]);
        lemma_gain_of_index(rest, i - 1);
        if distinct_names(gains) {
            assert(gains[0].0 != gains[i].0);
            assert forall|a: int, b: int| 0 <= a < b < rest.len() implies (#[trigger] rest[a]).0
                != (#[trigger] rest[b]).0 by {
                assert(rest[a] == gains[a + 1]);
                assert(rest[b] == gains[b + 1]);
            }
        }
    }
}

/// A name has points only if one of the pairs carries it.
pub proof fn lemma_gain_of_some(gains: Seq<(Seq<char>, nat)>, who: Seq<char>)
    requires
        gain_of(gains, who) is Some,
    ensures
        exists|i: int| 0 <= i < gains.len() && #[trigger] gains[i] == (who, gain_of(gains, who)->0),
    decreases gains.len(),
{
    if gains.first().0 == who {
        assert(gains[0] == (who, gain_of(gains, who)->0));
    } else {
        let rest = gains.drop_first();
        lemma_gain_of_some(rest, who);
        let i = choose|i: int|
            0 <= i < rest.len() && #[trigger] rest[i] == (who, gain_of(rest, who)->0);
        assert(gains[i + 1] == rest[i]);
    }
}

/// The point gains of one round: who earned how much, in the order in which
/// the correct answers arrived.
#[derive(Debug, PartialEq, Eq)]
pub struct PointGains {
    entries: Vec<PointGain>,
}

impl View for PointGains {
    type V = Seq<(Seq<char>, nat)>;

    closed spec fn view(&self) -> Seq<(Seq<char>, nat)> {
        gain_pairs(self.entries@)
    }
}

impl Clone for PointGains {
    /// The copy holds the same pairs in the same order.
    fn clone(&self) -> (copy: Self)
        ensures
            copy@ == self@,
    {
        let mut entries: Vec<PointGain> = Vec::new();
        let mut i: usize = 0;
        while i < self.entries.len()
            invariant
                i <= self.entries.len(),
                entries.len() == i,
                forall|k: int|
                    0 <= k < i ==> entries[k].username@ == self.entries[k].username@
                        && entries[k].points == self.entries[k].points,
            decreases self.entries.len() - i,
        {
            entries.push(self.entries[i].clone());
            i += 1;
        }
        assert(gain_pairs(entries@) =~= gain_pairs(self.entries@));
        PointGains { entries }
    }
}

impl PointGains {
    /// The empty mapping: nobody has earned anything.
    pub fn new() -> (gains: Self)
        ensures
            gains@ == Seq::<(Seq<char>, nat)>::empty(),
    {
        let gains = PointGains { entries: Vec::new() };
        assert(gains@ =~= Seq::<(Seq<char>, nat)>::empty());
        gains
    }

    /// Number of players that earned points.
    pub fn len(&self) -> (n: usize)
        ensures
            n == self@.len(),
    {
        self.entries.len()
    }

    /// The points of `username`, or `None` where the player earned none.
    pub fn get(&self, username: &String) -> (points: Option<u32>)
        ensures
            match points {
                Some(p) => gain_of(self@, username@) == Some(p as nat),
                None => gain_of(self@, username@) is None,
            },
    {
        let mut i: usize = 0;
        assert(self@.subrange(0, self@.len() as int) =~= self@);
        while i < self.entries.len()
            invariant
                i <= self.entries.len(),
                gain_of(self@, username@) == gain_of(
                    self@.subrange(i as int, self@.len() as int),
                    username@,
                ),
            decreases self.entries.len() - i,
        {
            let ghost rest = self@.subrange(i as int, self@.len() as int);
            assert(rest.first() == self@[i as int]);
            if self.entries[i].username == *username {
                return Some(self.entries[i].points);
            }
            assert(rest.drop_first() =~= self@.subrange(i + 1, self@.len() as int));
            i += 1;
        }
        None
    }

    /// Credits `points` to `username` behind all earlier entries, unless the
    /// player already has an entry: then nothing changes. Tells whether the
    /// entry was added.
    pub fn credit(&mut self, username: String, points: u32) -> (added: bool)
        ensures
            added == (gain_of(old(self)@, username@) is None),
            final(self)@ == if added {
                old(self)@.push((username@, points as nat))
            } else {
                old(self)@
            },
    {
        if self.get(&username).is_some() {
            return false;
        }
        let ghost before = self@;
        self.entries.push(PointGain { username, points });
        assert(self@ =~= before.push((username@, points as nat)));
        true
    }

    /// The entries in the order in which they were credited.
    pub fn entries(&self) -> (entries: &Vec<PointGain>)
        ensures
            gain_pairs(entries@) == self@,
    {
        &self.entries
    }
}

} // verus!
