//! Health scores as the decisions see them: by their order, with the forms they are shown in.

use crate::numbers::{dec, u64_text};
use vstd::prelude::*;

verus! {

/// Where a score stands among all scores. For a number this is its IEEE 754 single-precision
/// bit pattern, negated below zero, so that ranks are ordered as the numbers are.
#[derive(Clone, Copy, Debug, PartialEq, Eq, Structural)]
pub enum Rank {
    At(i32),
    NotANumber,
}

impl Rank {
    /// `self < other` on numbers; false where either is none.
    pub open spec fn lt(self, other: Rank) -> bool {
        match (self, other) {
            (Rank::At(a), Rank::At(b)) => a < b,
            _ => false,
        }
    }

    /// `self >= other` on numbers; false where either is none.
    pub open spec fn ge(self, other: Rank) -> bool {
        match (self, other) {
            (Rank::At(a), Rank::At(b)) => a >= b,
            _ => false,
        }
    }

    pub fn below(self, other: Rank) -> (r: bool)
        ensures
            r == self.lt(other),
    {
        match (self, other) {
            (Rank::At(a), Rank::At(b)) => a < b,
            _ => false,
        }
    }

    pub fn at_least(self, other: Rank) -> (r: bool)
        ensures
            r == self.ge(other),
    {
        match (self, other) {
            (Rank::At(a), Rank::At(b)) => a >= b,
            _ => false,
        }
    }
}

/// The rank of a whole number of points from 8 to 127: within each octave the bit pattern
/// grows by the same step from one whole number to the next.
pub open spec fn whole_rank(n: int) -> int {
    if n < 16 {
        0x4100_0000 + (n - 8) * 0x10_0000
    } else if n < 32 {
        0x4180_0000 + (n - 16) * 0x8_0000
    } else if n < 64 {
        0x4200_0000 + (n - 32) * 0x4_0000
    } else {
        0x4280_0000 + (n - 64) * 0x2_0000
    }
}

/// The rank of `n` points.
pub fn rank_of_whole(n: u8) -> (r: Rank)
    requires
        8 <= n < 128,
    ensures
        r == Rank::At(whole_rank(n as int) as i32),
{
    let m: i32 = n as i32;
    if m < 16 {
        Rank::At(0x4100_0000 + (m - 8) * 0x10_0000)
    } else if m < 32 {
        Rank::At(0x4180_0000 + (m - 16) * 0x8_0000)
    } else if m < 64 {
        Rank::At(0x4200_0000 + (m - 32) * 0x4_0000)
    } else {
        Rank::At(0x4280_0000 + (m - 64) * 0x2_0000)
    }
}

/// Whole numbers of points are ranked in their order.
pub proof fn law_whole_ranks_are_ordered(a: int, b: int)
    requires
        8 <= a < b < 128,
    ensures
        whole_rank(a) < whole_rank(b),
{
}

/// A score, or a threshold for one, with the two decimal forms in which it is shown.
#[derive(Debug)]
pub struct Score {
    pub rank: Rank,
    /// The shortest form that tells the number apart.
    pub plain: String,
    /// Rounded to whole points.
    pub whole: String,
}

/// What a `Score` holds.
#[verifier::ext_equal]
pub struct ScoreModel {
    pub rank: Rank,
    pub plain: Seq<char>,
    pub whole: Seq<char>,
}

impl View for Score {
    type V = ScoreModel;

    open spec fn view(&self) -> ScoreModel {
        ScoreModel { rank: self.rank, plain: self.plain@, whole: self.whole@ }
    }
}

impl Clone for Score {
    fn clone(&self) -> (r: Self)
        ensures
            r@ == self@,
    {
        Score { rank: self.rank, plain: self.plain.clone(), whole: self.whole.clone() }
    }
}

/// The score of `n` whole points.
pub open spec fn whole_score(n: int) -> ScoreModel {
    ScoreModel { rank: Rank::At(whole_rank(n) as i32), plain: dec(n as nat), whole: dec(n as nat) }
}

/// The score of `n` whole points.
pub fn score_of_whole(n: u8) -> (r: Score)
    requires
        8 <= n < 128,
    ensures
        r@ == whole_score(n as int),
{
    Score { rank: rank_of_whole(n), plain: u64_text(n as u64), whole: u64_text(n as u64) }
}

/// `s` held between `lo` and `hi` whole points.
pub open spec fn clamped_score(s: ScoreModel, lo: int, hi: int) -> ScoreModel {
    if s.rank.lt(whole_score(lo).rank) {
        whole_score(lo)
    } else if whole_score(hi).rank.lt(s.rank) {
        whole_score(hi)
    } else {
        s
    }
}

/// Holds a score between `lo` and `hi` whole points, as `f32::clamp` does.
pub fn clamp_score(s: Score, lo: u8, hi: u8) -> (r: Score)
    requires
        8 <= lo <= hi < 128,
    ensures
        r@ == clamped_score(s@, lo as int, hi as int),
{
    if s.rank.below(rank_of_whole(lo)) {
        score_of_whole(lo)
    } else if rank_of_whole(hi).below(s.rank) {
        score_of_whole(hi)
    } else {
        s
    }
}

/// Numbers are told apart by their ranks, and exactly one of two is below the other unless both are
/// the same; what is no number is neither below anything nor at least anything.
pub proof fn law_ranks_tell_numbers_apart(a: i32, b: i32, r: Rank)
    ensures
        Rank::At(a).lt(Rank::At(b)) <==> a < b,
        Rank::At(a).ge(Rank::At(b)) <==> !Rank::At(a).lt(Rank::At(b)),
        Rank::At(a).ge(Rank::At(b)) && Rank::At(b).ge(Rank::At(a)) <==> a == b,
        !r.lt(Rank::NotANumber) && !Rank::NotANumber.lt(r),
        !r.ge(Rank::NotANumber) && !Rank::NotANumber.ge(r),
{
}

/// The rank of a whole number is its single-precision bit pattern: the biased exponent above the
/// twenty-three bits of the fraction, which is what the number has beyond its power of two.
pub proof fn law_whole_ranks_are_bit_patterns(n: int, e: int, p: int)
    requires
        (e, p) == (3int, 8int) || (e, p) == (4int, 16int) || (e, p) == (5int, 32int) || (e, p) == (
            6int,
            64int,
        ),
        p <= n < 2 * p,
    ensures
        whole_rank(n) / 0x80_0000 == 127 + e,
        (whole_rank(n) % 0x80_0000) * p == (n - p) * 0x80_0000,
{
}

/// A score that is held between two limits is never outside them, stays what it is where it is not,
/// and is otherwise the limit that it would pass, and is shown as such.
pub proof fn law_held_between_limits(s: ScoreModel, lo: int, hi: int)
    requires
        8 <= lo <= hi < 128,
        s.rank is At,
    ensures
        whole_rank(lo) <= clamped_score(s, lo, hi).rank->0 <= whole_rank(hi),
        whole_rank(lo) <= s.rank->0 <= whole_rank(hi) ==> clamped_score(s, lo, hi) == s,
        s.rank->0 < whole_rank(lo) ==> clamped_score(s, lo, hi).plain == dec(lo as nat)
            && clamped_score(s, lo, hi).whole == dec(lo as nat),
        s.rank->0 > whole_rank(hi) ==> clamped_score(s, lo, hi).plain == dec(hi as nat)
            && clamped_score(s, lo, hi).whole == dec(hi as nat),
{
}

} // verus!
