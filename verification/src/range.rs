use vstd::prelude::*;
use vstd::arithmetic::div_mod::lemma_fundamental_div_mod;
use vstd::arithmetic::div_mod::lemma_mod_multiples_basic;
use crate::error::ValidationError;

verus! {

/// An arithmetic progression `start, start + step, start + 2 * step, ...`
/// that does not pass `end`.
#[derive(Clone, Copy, Debug, PartialEq, Eq, Structural)]
pub struct RangeSpec {
    pub start: i64,
    pub step: i64,
    pub end: i64,
}

/// The inclusive bounds of the indices that stand for a progression.
#[derive(Clone, Copy, Debug, PartialEq, Eq, Structural)]
pub struct NormalizedBounds {
    pub low: i64,
    pub high: i64,
}

impl NormalizedBounds {
    /// There are two indices at least, and one past the upper bound is still
    /// an integer of the machine.
    pub open spec fn wf(self) -> bool {
        self.low < self.high < i64::MAX
    }
}

impl RangeSpec {
    /// The step is positive and the end exceeds the start.
    pub open spec fn wf(self) -> bool {
        self.step > 0 && self.end > self.start
    }

    /// What validating a triple gives: the step is looked at first.
    pub open spec fn validated(start: i64, step: i64, end: i64) -> Result<
        RangeSpec,
        ValidationError,
    > {
        if step <= 0 {
            Err(ValidationError::StepNotPositive)
        } else if end <= start {
            Err(ValidationError::EndNotGreaterThanStart)
        } else {
            Ok(RangeSpec { start, step, end })
        }
    }

    /// How many whole strides fit between the start and the end.
    pub open spec fn strides(self) -> int {
        (self.end - self.start) / (self.step as int)
    }

    /// The index of the last member of the progression: the index of a member
    /// is `start` plus the number of strides that lead to it.
    pub open spec fn real_end(self) -> int {
        self.start + self.strides()
    }

    /// The smaller of the start and the last index.
    pub open spec fn low_index(self) -> int {
        if self.start <= self.real_end() {
            self.start as int
        } else {
            self.real_end()
        }
    }

    /// The larger of the start and the last index.
    pub open spec fn high_index(self) -> int {
        if self.start >= self.real_end() {
            self.start as int
        } else {
            self.real_end()
        }
    }

    /// What normalizing gives: the bounds of the indices, or the reason why the
    /// progression cannot be sampled.
    pub open spec fn normalized(self) -> Result<NormalizedBounds, ValidationError> {
        if self.start + self.step > i64::MAX {
            Err(ValidationError::SingleValueRange)
        } else if self.low_index() == self.high_index() {
            Err(ValidationError::SingleValueRange)
        } else if self.high_index() + 1 > i64::MAX {
            Err(ValidationError::EndTooLarge)
        } else {
            Ok(NormalizedBounds { low: self.low_index() as i64, high: self.high_index() as i64 })
        }
    }

    /// The member of the progression that the index `r` stands for.
    pub open spec fn value_of(self, r: int) -> int {
        self.start + (r - self.start) * self.step
    }

    /// The last index as the sign of the start decides how to compute it: from
    /// the start upwards, or through the start's absolute value.
    pub open spec fn real_end_by_sign(self) -> int {
        if self.start >= 0 || self.end < 0 {
            self.start + (self.end - self.start) / (self.step as int)
        } else {
            (self.end + vstd::math::abs(self.start as int)) / (self.step as int) - vstd::math::abs(
                self.start as int,
            )
        }
    }

    /// The member that `r` stands for as the signs of the start and of `r`
    /// decide how to compute it.
    pub open spec fn value_by_sign(self, r: int) -> int {
        if self.start >= 0 {
            self.start + (r - self.start) * self.step
        } else if r < 0 {
            (r - self.start) * self.step - vstd::math::abs(self.start as int)
        } else {
            (r + vstd::math::abs(self.start as int)) * self.step - vstd::math::abs(
                self.start as int,
            )
        }
    }

    /// Validates a triple: a step that is not positive is refused first, then
    /// an end that does not exceed the start.
    pub fn new(start: i64, step: i64, end: i64) -> (r: Result<RangeSpec, ValidationError>)
        ensures
            r == Self::validated(start, step, end),
            r matches Ok(spec) ==> spec.wf(),
    {
        if step <= 0 {
            Err(ValidationError::StepNotPositive)
        } else if end <= start {
            Err(ValidationError::EndNotGreaterThanStart)
        } else {
            Ok(RangeSpec { start, step, end })
        }
    }

    /// Maps the progression onto its indices. No intermediate value leaves
    /// the integers that the machine holds, whatever the triple.
    pub fn normalize(&self) -> (r: Result<NormalizedBounds, ValidationError>)
        requires
            self.wf(),
        ensures
            r == self.normalized(),
            r matches Ok(b) ==> b.low == self.start && b.high == self.real_end() && b.wf(),
    {
        proof {
            lemma_strides_bounded(self.end - self.start, self.step as int);
        }
        let span: i128 = self.end as i128 - self.start as i128;
        let strides: i128 = span / (self.step as i128);
        let real_end: i128 = self.start as i128 + strides;
        if self.start.checked_add(self.step).is_none() {
            Err(ValidationError::SingleValueRange)
        } else if strides == 0 {
            Err(ValidationError::SingleValueRange)
        } else if real_end == i64::MAX as i128 {
            Err(ValidationError::EndTooLarge)
        } else {
            Ok(NormalizedBounds { low: self.start, high: real_end as i64 })
        }
    }

    /// Maps an index back to the member of the progression that it stands for.
    pub fn value_at(&self, bounds: &NormalizedBounds, r: i64) -> (v: i64)
        requires
            self.wf(),
            self.normalized() == Ok::<NormalizedBounds, ValidationError>(*bounds),
            bounds.low <= r <= bounds.high,
        ensures
            v == self.value_of(r as int),
            self.start <= v <= self.end,
            (v - self.start) % (self.step as int) == 0,
    {
        proof {
            self.lemma_value_in_progression(r as int);
        }
        let k: i128 = r as i128 - self.start as i128;
        assert(0 <= k * self.step <= self.end - self.start) by (nonlinear_arith)
            requires
                k == r - self.start,
                self.start <= self.start + (r - self.start) * self.step <= self.end,
        ;
        let v: i128 = self.start as i128 + k * (self.step as i128);
        v as i64
    }

    /// Every index within the bounds stands for a member of the progression:
    /// it lies between the start and the end, both included, and differs from
    /// the start by a multiple of the step. It reaches the end only at the
    /// upper bound, and only where the step divides the distance.
    pub proof fn lemma_value_in_progression(self, r: int)
        requires
            self.wf(),
            self.normalized() is Ok,
            self.normalized().unwrap().low <= r <= self.normalized().unwrap().high,
        ensures
            self.start <= self.value_of(r) <= self.end,
            (self.value_of(r) - self.start) % (self.step as int) == 0,
            self.value_of(r) == self.end ==> r == self.normalized().unwrap().high && (self.end
                - self.start) % (self.step as int) == 0,
            self.value_of(self.normalized().unwrap().low as int) == self.start,
            self.value_of(r) <= self.value_of(self.normalized().unwrap().high as int) <= self.end,
            self.end - self.value_of(self.normalized().unwrap().high as int) < self.step,
    {
        let d = self.end - self.start;
        let s = self.step as int;
        let k = r - self.start;
        lemma_strides_bounded(d, s);
        lemma_fundamental_div_mod(d, s);
        assert(0 <= k <= d / s);
        assert(0 <= k * s <= (d / s) * s) by (nonlinear_arith)
            requires
                0 <= k <= d / s,
                s > 0,
        ;
        assert(s * (d / s) == (d / s) * s) by (nonlinear_arith);
        assert(k < d / s ==> k * s + s <= (d / s) * s) by (nonlinear_arith)
            requires
                s > 0,
        ;
        lemma_mod_multiples_basic(k, s);
        assert(self.start - self.start == 0);
        assert(0 * s == 0);
    }

    /// With a step of one an index is its own value, and every index below the
    /// upper bound gives a value below the end.
    pub proof fn lemma_unit_step(self, r: int)
        requires
            self.wf(),
            self.step == 1,
            self.normalized() is Ok,
            self.normalized().unwrap().low <= r <= self.normalized().unwrap().high,
        ensures
            self.value_of(r) == r,
            self.start <= self.value_of(r) <= self.end,
            r < self.normalized().unwrap().high ==> self.value_of(r) < self.end,
            (self.value_of(r) - self.start) % 1 == 0,
    {
        self.lemma_value_in_progression(r);
    }

    /// A progression that normalizes has at least two indices, and a larger
    /// index stands for a larger value: no two indices give the same value.
    pub proof fn lemma_values_increase(self, r1: int, r2: int)
        requires
            self.wf(),
            self.normalized() is Ok,
            r1 < r2,
        ensures
            self.normalized().unwrap().low < self.normalized().unwrap().high,
            self.value_of(r1) < self.value_of(r2),
            self.value_of(r2) - self.value_of(r1) >= self.step,
    {
        let s = self.step as int;
        let k1 = r1 - self.start;
        let k2 = r2 - self.start;
        lemma_strides_bounded(self.end - self.start, s);
        assert(k1 < k2 ==> k1 * s + s <= k2 * s) by (nonlinear_arith)
            requires
                s > 0,
        ;
    }

    /// The forms that branch on signs compute what the direct forms state.
    pub proof fn lemma_sign_forms_agree(self, r: int)
        requires
            self.wf(),
        ensures
            self.real_end_by_sign() == self.real_end(),
            self.value_by_sign(r) == self.value_of(r),
            self.low_index() == self.start,
            self.high_index() == self.real_end(),
    {
        lemma_strides_bounded(self.end - self.start, self.step as int);
    }

    /// The lower bound is the start, and the upper bound is below the largest
    /// integer.
    pub proof fn lemma_normalized_bounds(self)
        requires
            self.wf(),
        ensures
            self.normalized() matches Ok(b) ==> b.low == self.start && b.high == self.real_end()
                && b.wf(),
    {
        lemma_strides_bounded(self.end - self.start, self.step as int);
    }

    /// Which triples are refused, and for what: the range has a single value
    /// exactly where the step exceeds the distance or `start + step` overflows;
    /// the end is too large exactly where the step is one and the end is the
    /// largest integer.
    pub proof fn lemma_rejections(self)
        requires
            self.wf(),
        ensures
            self.normalized() == Err::<NormalizedBounds, ValidationError>(
                ValidationError::SingleValueRange,
            ) <==> (self.end - self.start < self.step || self.start + self.step > i64::MAX),
            self.normalized() == Err::<NormalizedBounds, ValidationError>(
                ValidationError::EndTooLarge,
            ) <==> (self.step == 1 && self.end == i64::MAX),
            self.normalized() is Ok <==> (self.step <= self.end - self.start && !(self.step == 1
                && self.end == i64::MAX)),
    {
        let d = self.end - self.start;
        let s = self.step as int;
        lemma_strides_bounded(d, s);
        lemma_fundamental_div_mod(d, s);
        assert(s * (d / s) == (d / s) * s) by (nonlinear_arith);
        assert(d / s == 0 <==> d < s) by (nonlinear_arith)
            requires
                d == s * (d / s) + d % s,
                0 <= d % s < s,
                d >= 0,
                s > 0,
        ;
        assert(s >= 2 && d / s >= 1 ==> d / s < d) by (nonlinear_arith)
            requires
                d == s * (d / s) + d % s,
                0 <= d % s < s,
        ;
        assert(s == 1 ==> d / s == d) by (nonlinear_arith)
            requires
                d == s * (d / s) + d % s,
                0 <= d % s < s,
        ;
    }
}

/// A quotient by a positive divisor lies between zero and the dividend.
pub proof fn lemma_strides_bounded(d: int, s: int)
    requires
        d >= 0,
        s > 0,
    ensures
        0 <= d / s <= d,
        0 <= d % s < s,
{
    lemma_fundamental_div_mod(d, s);
    assert(0 <= d % s < s) by (nonlinear_arith)
        requires
            s > 0,
    ;
    assert(0 <= d / s <= d) by (nonlinear_arith)
        requires
            d == s * (d / s) + d % s,
            0 <= d % s < s,
            d >= 0,
            s > 0,
    ;
}

} // verus!
