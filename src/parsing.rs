//! Sphere distributions: raw records, validation, and the proportion-weighted sums
//! that size a container.
use crate::{TARGET_SPHERE_COUNT, VOLUME_MARGIN};
use vstd::prelude::*;
use vstd::seq_lib::{commutative_foldl, lemma_fold_left_permutation};

verus! {

/// One sphere type: a name, a radius (fixed-point, see `LENGTH_SCALE`) and its
/// relative abundance in percent.
#[derive(Debug, PartialEq)]
pub struct ParsedSphere {
    pub name: String,
    pub radius: i64,
    pub proportion: u8,
}

impl ParsedSphere {
    pub fn new(name: String, radius: i64, proportion: u8) -> (r: Self)
        ensures
            r.name@ == name@,
            r.radius == radius,
            r.proportion == proportion,
    {
        ParsedSphere { name, radius, proportion }
    }

    pub fn radius(&self) -> (r: i64)
        ensures
            r == self.radius,
    {
        self.radius
    }

    pub fn proportion(&self) -> (r: u8)
        ensures
            r == self.proportion,
    {
        self.proportion
    }
}

/// Sphere records as read, not yet validated.
#[derive(Debug, PartialEq)]
pub struct SpheresRaw(pub Vec<ParsedSphere>);

/// Why a distribution was rejected.
#[derive(Debug, PartialEq, Eq, Structural)]
pub enum ParsingError {
    /// Some radius is zero or negative.
    NonPositive,
    /// The proportions do not add up to exactly 100.
    InvalidProportions,
}

/// Sum of `f` over the records, in order.
pub open spec fn weighted_sum(s: Seq<ParsedSphere>, f: spec_fn(ParsedSphere) -> int) -> int {
    s.fold_left(0int, |acc: int, e: ParsedSphere| acc + f(e))
}

pub open spec fn proportion_of(e: ParsedSphere) -> int {
    e.proportion as int
}

/// A record's share of the weighted volume sum: proportion times radius cubed.
pub open spec fn volume_term(e: ParsedSphere) -> int {
    e.proportion as int * (e.radius as int * e.radius as int * e.radius as int)
}

/// A record's share of the weighted surface sum: proportion times radius squared.
pub open spec fn area_term(e: ParsedSphere) -> int {
    e.proportion as int * (e.radius as int * e.radius as int)
}

pub open spec fn proportion_total(s: Seq<ParsedSphere>) -> int {
    weighted_sum(s, |e: ParsedSphere| proportion_of(e))
}

/// `Σ pᵢ·rᵢ³`: the average sphere volume is `4π/300` times this.
pub open spec fn volume_moment(s: Seq<ParsedSphere>) -> int {
    weighted_sum(s, |e: ParsedSphere| volume_term(e))
}

/// `Σ pᵢ·rᵢ²`: the average sphere surface area is `4π/100` times this.
pub open spec fn area_moment(s: Seq<ParsedSphere>) -> int {
    weighted_sum(s, |e: ParsedSphere| area_term(e))
}

pub open spec fn radii_positive(s: Seq<ParsedSphere>) -> bool {
    forall|i: int| 0 <= i < s.len() ==> #[trigger] s[i].radius > 0
}

/// A distribution is valid when every radius is positive and the proportions sum to 100.
pub open spec fn is_valid(s: Seq<ParsedSphere>) -> bool {
    radii_positive(s) && proportion_total(s) == 100
}

/// Validated sphere records: every radius is positive and the proportions sum to 100.
#[derive(Debug, PartialEq)]
pub struct Spheres(Vec<ParsedSphere>);

impl Spheres {
    #[verifier::type_invariant]
    spec fn inv(self) -> bool {
        is_valid(self.0@)
    }

    pub closed spec fn view(&self) -> Seq<ParsedSphere> {
        self.0@
    }

    /// The records, in input order.
    pub fn as_slice(&self) -> (r: &[ParsedSphere])
        ensures
            r@ == self@,
            is_valid(self@),
    {
        proof {
            use_type_invariant(self);
        }
        self.0.as_slice()
    }

    /// `(radius, proportion)` of each record, in input order.
    pub fn radius_weights(&self) -> (r: Vec<(i64, u8)>)
        ensures
            is_valid(self@),
            r@.len() == self@.len(),
            forall|i: int|
                0 <= i < r@.len() ==> #[trigger] r@[i] == (self@[i].radius, self@[i].proportion),
    {
        proof {
            use_type_invariant(self);
        }
        let mut out: Vec<(i64, u8)> = Vec::new();
        let mut i: usize = 0;
        while i < self.0.len()
            invariant
                i <= self.0@.len(),
                out@.len() == i,
                forall|j: int|
                    0 <= j < i ==> #[trigger] out@[j] == (self.0@[j].radius, self.0@[j].proportion),
            decreases self.0@.len() - i,
        {
            out.push((self.0[i].radius, self.0[i].proportion));
            i = i + 1;
        }
        out
    }

    /// `Σ pᵢ·rᵢ³` over the records, or `None` when it exceeds `u128::MAX`.
    pub fn volume_moment(&self) -> (r: Option<u128>)
        ensures
            match r {
                Some(m) => m == volume_moment(self@),
                None => volume_moment(self@) > u128::MAX,
            },
    {
        proof {
            use_type_invariant(self);
        }
        let s = Ghost(self.0@);
        let mut total: u128 = 0;
        let mut i: usize = 0;
        while i < self.0.len()
            invariant
                s@ == self.0@,
                radii_positive(s@),
                i <= s@.len(),
                total == volume_moment(s@.subrange(0, i as int)),
            decreases s@.len() - i,
        {
            proof {
                assert forall|j: int| 0 <= j < s@.len() implies #[trigger] volume_term(s@[j]) >= 0 by {
                    lemma_terms_nonneg(s@[j]);
                }
                lemma_sum_step(s@, |e: ParsedSphere| volume_term(e), i as int);
                lemma_sum_prefix_le(s@, |e: ParsedSphere| volume_term(e), i as int + 1);
            }
            let rec = &self.0[i];
            let r = rec.radius as u128;
            let p = rec.proportion as u128;
            assert(s@[i as int].radius > 0);
            let term: u128 = if p == 0 {
                assert(volume_term(s@[i as int]) == 0) by (nonlinear_arith)
                    requires
                        s@[i as int].proportion == 0,
                ;
                0
            } else {
                let r2 = match r.checked_mul(r) {
                    Some(v) => v,
                    None => {
                        proof { lemma_term_ge_parts(r as int, p as int); }
                        return None;
                    },
                };
                let r3 = match r2.checked_mul(r) {
                    Some(v) => v,
                    None => {
                        proof { lemma_term_ge_parts(r as int, p as int); }
                        return None;
                    },
                };
                assert(r3 * p == volume_term(s@[i as int])) by (nonlinear_arith)
                    requires
                        r3 == r * r * r,
                        r == s@[i as int].radius,
                        p == s@[i as int].proportion,
                ;
                match r3.checked_mul(p) {
                    Some(v) => v,
                    None => return None,
                }
            };
            assert(term == volume_term(s@[i as int]));
            total = match total.checked_add(term) {
                Some(v) => v,
                None => return None,
            };
            i = i + 1;
        }
        assert(s@.subrange(0, s@.len() as int) =~= s@);
        Some(total)
    }

    /// The container volume of the sizing heuristic, divided by `4π/300`:
    /// `VOLUME_MARGIN · TARGET_SPHERE_COUNT · Σ pᵢ·rᵢ³`, or `None` when it exceeds
    /// `u128::MAX`.
    pub fn container_volume_moment(&self) -> (r: Option<u128>)
        ensures
            match r {
                Some(m) => m == VOLUME_MARGIN * TARGET_SPHERE_COUNT * volume_moment(self@),
                None => VOLUME_MARGIN * TARGET_SPHERE_COUNT * volume_moment(self@) > u128::MAX,
            },
    {
        let factor: u128 = (VOLUME_MARGIN * TARGET_SPHERE_COUNT) as u128;
        match self.volume_moment() {
            Some(m) => {
                let r = m.checked_mul(factor);
                assert(m * factor == factor * m) by (nonlinear_arith);
                r
            },
            None => None,
        }
    }

    /// The ratio `avgVol / avgSA` as a fraction `(Σ pᵢ·rᵢ³, 3·Σ pᵢ·rᵢ²)` (the factors
    /// of π and of 1/100 cancel); the denominator is positive. `None` when either
    /// part exceeds `u128::MAX`.
    pub fn sa_to_vol_ratio(&self) -> (r: Option<(u128, u128)>)
        ensures
            match r {
                Some((n, d)) => n == volume_moment(self@) && d == 3 * area_moment(self@) && d > 0,
                None => volume_moment(self@) > u128::MAX || 3 * area_moment(self@) > u128::MAX,
            },
    {
        proof {
            use_type_invariant(self);
            lemma_area_moment_ge_total(self.0@);
        }
        let n = match self.volume_moment() {
            Some(v) => v,
            None => return None,
        };
        match self.area_moment() {
            Some(a) => match a.checked_mul(3) {
                Some(d) => Some((n, d)),
                None => None,
            },
            None => None,
        }
    }

    /// `Σ pᵢ·rᵢ²` over the records, or `None` when it exceeds `u128::MAX`.
    pub fn area_moment(&self) -> (r: Option<u128>)
        ensures
            match r {
                Some(m) => m == area_moment(self@),
                None => area_moment(self@) > u128::MAX,
            },
    {
        proof {
            use_type_invariant(self);
        }
        let s = Ghost(self.0@);
        let mut total: u128 = 0;
        let mut i: usize = 0;
        while i < self.0.len()
            invariant
                s@ == self.0@,
                radii_positive(s@),
                i <= s@.len(),
                total == area_moment(s@.subrange(0, i as int)),
            decreases s@.len() - i,
        {
            proof {
                assert forall|j: int| 0 <= j < s@.len() implies #[trigger] area_term(s@[j]) >= 0 by {
                    lemma_terms_nonneg(s@[j]);
                }
                lemma_sum_step(s@, |e: ParsedSphere| area_term(e), i as int);
                lemma_sum_prefix_le(s@, |e: ParsedSphere| area_term(e), i as int + 1);
            }
            let rec = &self.0[i];
            let r = rec.radius as u128;
            let p = rec.proportion as u128;
            assert(s@[i as int].radius > 0);
            assert(r * r <= u128::MAX) by (nonlinear_arith)
                requires
                    0 < r <= i64::MAX,
            ;
            assert((r * r) * p == area_term(s@[i as int])) by (nonlinear_arith)
                requires
                    r == s@[i as int].radius,
                    p == s@[i as int].proportion,
            ;
            let term: u128 = match (r * r).checked_mul(p) {
                Some(v) => v,
                None => return None,
            };
            total = match total.checked_add(term) {
                Some(v) => v,
                None => return None,
            };
            i = i + 1;
        }
        assert(s@.subrange(0, s@.len() as int) =~= s@);
        Some(total)
    }
}

/// Reordering the records changes neither the weighted volume sum nor the
/// weighted surface sum (nor the proportion total).
pub proof fn lemma_moments_order_independent(a: Seq<ParsedSphere>, b: Seq<ParsedSphere>)
    requires
        a.to_multiset() == b.to_multiset(),
    ensures
        volume_moment(a) == volume_moment(b),
        area_moment(a) == area_moment(b),
        proportion_total(a) == proportion_total(b),
{
    lemma_sum_order_independent(a, b, |e: ParsedSphere| volume_term(e));
    lemma_sum_order_independent(a, b, |e: ParsedSphere| area_term(e));
    lemma_sum_order_independent(a, b, |e: ParsedSphere| proportion_of(e));
}

proof fn lemma_sum_order_independent(
    a: Seq<ParsedSphere>,
    b: Seq<ParsedSphere>,
    f: spec_fn(ParsedSphere) -> int,
)
    requires
        a.to_multiset() == b.to_multiset(),
    ensures
        weighted_sum(a, f) == weighted_sum(b, f),
{
    let g = |acc: int, e: ParsedSphere| acc + f(e);
    assert(commutative_foldl(g));
    lemma_fold_left_permutation(a, b, g, 0int);
}

proof fn lemma_terms_nonneg(e: ParsedSphere)
    requires
        e.radius > 0,
    ensures
        volume_term(e) >= 0,
        area_term(e) >= 0,
{
    let r = e.radius as int;
    let p = e.proportion as int;
    assert(p * (r * r * r) >= 0) by (nonlinear_arith)
        requires
            r > 0,
            p >= 0,
    ;
    assert(p * (r * r) >= 0) by (nonlinear_arith)
        requires
            r > 0,
            p >= 0,
    ;
}

/// With every radius positive, the weighted surface sum is at least the proportion total.
proof fn lemma_area_moment_ge_total(s: Seq<ParsedSphere>)
    requires
        radii_positive(s),
    ensures
        area_moment(s) >= proportion_total(s),
    decreases s.len(),
{
    if s.len() > 0 {
        let t = s.drop_last();
        assert(radii_positive(t)) by {
            assert forall|i: int| 0 <= i < t.len() implies #[trigger] t[i].radius > 0 by {
                assert(t[i] == s[i]);
            }
        }
        lemma_area_moment_ge_total(t);
        let e = s.last();
        assert(e.radius > 0);
        let r = e.radius as int;
        let p = e.proportion as int;
        assert(p * (r * r) >= p) by (nonlinear_arith)
            requires
                r >= 1,
                p >= 0,
        ;
    }
}

proof fn lemma_term_ge_parts(r: int, p: int)
    requires
        r > 0,
        p > 0,
    ensures
        r * r <= p * (r * r * r),
        r * r * r <= p * (r * r * r),
{
    assert(r * r <= r * r * r) by (nonlinear_arith)
        requires
            r > 0,
    ;
    assert(r * r * r <= p * (r * r * r)) by (nonlinear_arith)
        requires
            r > 0,
            p > 0,
    ;
}

proof fn lemma_sum_step(s: Seq<ParsedSphere>, f: spec_fn(ParsedSphere) -> int, i: int)
    requires
        0 <= i < s.len(),
    ensures
        weighted_sum(s.subrange(0, i + 1), f) == weighted_sum(s.subrange(0, i), f) + f(s[i]),
{
    assert(s.subrange(0, i + 1).drop_last() == s.subrange(0, i));
}

/// A prefix sum of non-negative terms is at most the whole sum.
proof fn lemma_sum_prefix_le(s: Seq<ParsedSphere>, f: spec_fn(ParsedSphere) -> int, k: int)
    requires
        0 <= k <= s.len(),
        forall|j: int| 0 <= j < s.len() ==> #[trigger] f(s[j]) >= 0,
    ensures
        weighted_sum(s.subrange(0, k), f) <= weighted_sum(s, f),
    decreases s.len() - k,
{
    if k < s.len() {
        lemma_sum_step(s, f, k);
        lemma_sum_prefix_le(s, f, k + 1);
    } else {
        assert(s.subrange(0, k) =~= s);
    }
}

/// Validate `raw`: every radius must be positive (checked first), then the
/// proportions must sum to exactly 100.
pub fn validate(raw: SpheresRaw) -> (r: Result<Spheres, ParsingError>)
    ensures
        match r {
            Ok(v) => is_valid(raw.0@) && v@ == raw.0@,
            Err(ParsingError::NonPositive) => !radii_positive(raw.0@),
            Err(ParsingError::InvalidProportions) => radii_positive(raw.0@) && proportion_total(
                raw.0@,
            ) != 100,
        },
{
    let s = Ghost(raw.0@);
    let mut i: usize = 0;
    while i < raw.0.len()
        invariant
            s@ == raw.0@,
            i <= s@.len(),
            forall|j: int| 0 <= j < i ==> #[trigger] s@[j].radius > 0,
        decreases s@.len() - i,
    {
        if raw.0[i].radius <= 0 {
            return Err(ParsingError::NonPositive);
        }
        i = i + 1;
    }
    let mut total: u32 = 0;
    let mut k: usize = 0;
    while k < raw.0.len()
        invariant
            s@ == raw.0@,
            k <= s@.len(),
            radii_positive(s@),
            total == proportion_total(s@.subrange(0, k as int)),
            total <= 100,
        decreases s@.len() - k,
    {
        proof {
            lemma_sum_step(s@, |e: ParsedSphere| proportion_of(e), k as int);
        }
        total = total + raw.0[k].proportion as u32;
        if total > 100 {
            proof {
                lemma_sum_prefix_le(s@, |e: ParsedSphere| proportion_of(e), k as int + 1);
            }
            return Err(ParsingError::InvalidProportions);
        }
        k = k + 1;
    }
    assert(s@.subrange(0, s@.len() as int) =~= s@);
    if total == 100 {
        Ok(Spheres(raw.0))
    } else {
        Err(ParsingError::InvalidProportions)
    }
}

} // verus!
