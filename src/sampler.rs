//! Drawing sphere radii at random, each with probability proportional to its weight.
use crate::parsing::{proportion_total, Spheres};
use rand::distributions::{Distribution, WeightedIndex};
use vstd::prelude::*;

verus! {

/// rand's discrete weighted index over `u8` weights, held opaquely.
#[verifier::external_body]
pub struct RadiusIndex {
    dist: WeightedIndex<u8>,
}

/// The weights a `RadiusIndex` was built from, in order.
pub uninterp spec fn index_weights(d: RadiusIndex) -> Seq<u8>;

/// Sum of the weights.
pub open spec fn total(w: Seq<u8>) -> int {
    w.fold_left(0int, |acc: int, x: u8| acc + x)
}

/// Relies on `rand::distributions::WeightedIndex::new` (rand 0.8): it fails when
/// there are no weights or all of them are zero, and otherwise keeps them. Its
/// running total is a `u8`, which must not pass 255.
#[verifier::external_body]
fn weighted_index_new(weights: Vec<u8>) -> (r: Option<RadiusIndex>)
    requires
        total(weights@) <= u8::MAX,
    ensures
        r.is_some() <==> total(weights@) > 0,
        r matches Some(d) ==> index_weights(d) == weights@,
{
    WeightedIndex::new(weights).ok().map(|dist| RadiusIndex { dist })
}

/// Relies on `WeightedIndex::sample` (rand 0.8): it draws a point below the total
/// weight and returns the index whose cumulative range holds it, so an index of
/// positive weight.
#[verifier::external_body]
fn weighted_index_sample<R: rand::Rng + ?Sized>(d: &RadiusIndex, rng: &mut R) -> (r: usize)
    ensures
        r < index_weights(*d).len(),
        index_weights(*d)[r as int] > 0,
{
    d.dist.sample(rng)
}

/// Why a sampler could not be built.
#[derive(Debug, PartialEq, Eq, Structural)]
pub enum SamplerError {
    /// No weight is positive (or there are no radii at all).
    NoPositiveWeight,
    /// The weights add up to more than 255.
    TotalTooLarge,
}

/// A weighted distribution over sphere radii.
pub struct WeightedRadiusDistribution {
    /// Available radii.
    choices: Vec<i64>,
    /// Draws indices into `choices`.
    dist: RadiusIndex,
}

impl WeightedRadiusDistribution {
    #[verifier::type_invariant]
    spec fn inv(self) -> bool {
        index_weights(self.dist).len() == self.choices@.len()
    }

    /// The radii that can be drawn.
    pub closed spec fn choices(&self) -> Seq<i64> {
        self.choices@
    }

    /// The weight of each radius, parallel to `choices`.
    pub closed spec fn weights(&self) -> Seq<u8> {
        index_weights(self.dist)
    }

    /// Build a sampler from `(radius, weight)` pairs; a radius is drawn with
    /// probability `weight / total`.
    pub fn new(items: Vec<(i64, u8)>) -> (r: Result<Self, SamplerError>)
        ensures
            match r {
                Ok(d) => {
                    &&& d.choices().len() == items@.len()
                    &&& d.weights().len() == items@.len()
                    &&& forall|i: int|
                        0 <= i < items@.len() ==> (#[trigger] items@[i]).0 == d.choices()[i]
                            && items@[i].1 == d.weights()[i]
                    &&& 0 < total(d.weights()) <= u8::MAX
                },
                Err(SamplerError::NoPositiveWeight) => total(items@.map_values(|it: (i64, u8)| it.1))
                    == 0,
                Err(SamplerError::TotalTooLarge) => total(items@.map_values(|it: (i64, u8)| it.1))
                    > u8::MAX,
            },
    {
        let ghost ws = items@.map_values(|it: (i64, u8)| it.1);
        let mut choices: Vec<i64> = Vec::new();
        let mut weights: Vec<u8> = Vec::new();
        let mut sum: u32 = 0;
        let mut i: usize = 0;
        while i < items.len()
            invariant
                i <= items@.len(),
                ws == items@.map_values(|it: (i64, u8)| it.1),
                choices@.len() == i,
                weights@ == ws.subrange(0, i as int),
                forall|j: int| 0 <= j < i ==> #[trigger] choices@[j] == items@[j].0,
                sum == total(weights@),
                sum <= u8::MAX,
            decreases items@.len() - i,
        {
            let (radius, weight) = items[i];
            proof {
                assert(ws.subrange(0, i + 1).drop_last() =~= ws.subrange(0, i as int));
            }
            choices.push(radius);
            weights.push(weight);
            sum = sum + weight as u32;
            assert(weights@ =~= ws.subrange(0, i + 1));
            if sum > 255 {
                proof {
                    lemma_total_prefix_le(ws, i + 1);
                }
                return Err(SamplerError::TotalTooLarge);
            }
            i = i + 1;
        }
        assert(weights@ =~= ws);
        if sum == 0 {
            return Err(SamplerError::NoPositiveWeight);
        }
        match weighted_index_new(weights) {
            Some(dist) => Ok(WeightedRadiusDistribution { choices, dist }),
            None => Err(SamplerError::NoPositiveWeight),
        }
    }

    /// The sampler of a validated distribution: each radius with probability
    /// `proportion / 100`. It cannot fail, since the proportions sum to 100.
    pub fn from_spheres(spheres: &Spheres) -> (r: Self)
        ensures
            r.choices().len() == spheres@.len(),
            r.weights().len() == spheres@.len(),
            forall|i: int|
                0 <= i < spheres@.len() ==> r.choices()[i] == (#[trigger] spheres@[i]).radius
                    && r.weights()[i] == spheres@[i].proportion,
            total(r.weights()) == 100,
    {
        let items = spheres.radius_weights();
        let ghost ws = items@.map_values(|it: (i64, u8)| it.1);
        proof {
            assert forall|i: int| 0 <= i < spheres@.len() implies #[trigger] ws[i]
                == spheres@[i].proportion by {
                assert(items@[i] == (spheres@[i].radius, spheres@[i].proportion));
            }
            lemma_total_matches_proportions(ws, spheres@);
        }
        let ghost it = items@;
        match Self::new(items) {
            Ok(d) => {
                assert forall|i: int| 0 <= i < spheres@.len() implies d.choices()[i]
                    == (#[trigger] spheres@[i]).radius && d.weights()[i] == spheres@[i].proportion by {
                    assert(it[i] == (spheres@[i].radius, spheres@[i].proportion));
                }
                assert(d.weights() =~= ws);
                d
            },
            Err(_) => unreached(),
        }
    }

    /// Draw one radius: always one of `choices` whose weight is positive.
    pub fn sample<R: rand::Rng + ?Sized>(&self, rng: &mut R) -> (r: i64)
        ensures
            exists|i: int|
                0 <= i < self.choices().len() && self.weights()[i] > 0 && r == #[trigger] self.choices()[i],
    {
        proof {
            use_type_invariant(self);
        }
        let k = weighted_index_sample(&self.dist, rng);
        assert(self.choices()[k as int] == self.choices@[k as int]);
        self.choices[k]
    }
}

proof fn lemma_total_prefix_le(w: Seq<u8>, k: int)
    requires
        0 <= k <= w.len(),
    ensures
        total(w.subrange(0, k)) <= total(w),
    decreases w.len() - k,
{
    if k < w.len() {
        assert(w.subrange(0, k + 1).drop_last() =~= w.subrange(0, k));
        lemma_total_prefix_le(w, k + 1);
    } else {
        assert(w.subrange(0, k) =~= w);
    }
}

proof fn lemma_total_matches_proportions(w: Seq<u8>, s: Seq<crate::parsing::ParsedSphere>)
    requires
        w.len() == s.len(),
        forall|i: int| 0 <= i < s.len() ==> #[trigger] w[i] == s[i].proportion,
    ensures
        total(w) == proportion_total(s),
    decreases s.len(),
{
    if s.len() > 0 {
        lemma_total_matches_proportions(w.drop_last(), s.drop_last());
    }
}

} // verus!
