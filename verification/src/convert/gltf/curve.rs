//! The domains of animation curves, for resampling the per-component curves
//! of Nitro animations onto their common domain.

use vstd::prelude::*;
use crate::nitro::Curve;

verus! {

/// Represents the domain of a Curve.
///
/// The domain of a constant curve is taken to be a single sample at 0.
#[derive(Debug, Copy, Clone)]
pub enum CurveDomain {
    Empty,
    Sampled { start_frame: u16, end_frame: u16, sampling_rate: u16 },
}

impl<T> Curve<T> {
    /// Whether `domain` can be computed: a sampled curve must not end before
    /// it starts and must have a nonzero number of samples (modulo 2^16).
    pub open spec fn has_domain(&self) -> bool {
        match self {
            Curve::Samples { start_frame, end_frame, values } =>
                *start_frame <= *end_frame && values@.len() % 0x10000 != 0,
            _ => true,
        }
    }

    pub open spec fn spec_domain(&self) -> CurveDomain {
        match self {
            Curve::Empty => CurveDomain::Empty,
            Curve::Constant(_) => CurveDomain::Sampled { start_frame: 0, end_frame: 1, sampling_rate: 1 },
            Curve::Samples { start_frame, end_frame, values } => CurveDomain::Sampled {
                start_frame: *start_frame,
                end_frame: *end_frame,
                sampling_rate: ((*end_frame - *start_frame) / ((values@.len() % 0x10000) as int)) as u16,
            },
        }
    }

    pub fn domain(&self) -> (d: CurveDomain)
        requires
            self.has_domain(),
        ensures
            d == self.spec_domain(),
    {
        match self {
            Curve::Empty => CurveDomain::Empty,
            Curve::Constant(_) => CurveDomain::Sampled { start_frame: 0, end_frame: 1, sampling_rate: 1 },
            Curve::Samples { start_frame, end_frame, values } => {
                let len: usize = values.len();
                let n: u16 = len as u16;
                assert(n == len % 0x10000) by (bit_vector)
                    requires n == len as u16;
                CurveDomain::Sampled {
                    start_frame: *start_frame,
                    end_frame: *end_frame,
                    sampling_rate: (*end_frame - *start_frame) / n,
                }
            },
        }
    }
}

/// The smaller of two frame numbers.
pub open spec fn min16(a: u16, b: u16) -> u16 {
    if a <= b { a } else { b }
}

/// The larger of two frame numbers.
pub open spec fn max16(a: u16, b: u16) -> u16 {
    if a >= b { a } else { b }
}

impl CurveDomain {
    /// The domain covering both: from the earlier start to the later end at
    /// the finer sampling rate.
    pub open spec fn spec_union(self, other: CurveDomain) -> CurveDomain {
        match (self, other) {
            (CurveDomain::Empty, d) => d,
            (d, CurveDomain::Empty) => d,
            (
                CurveDomain::Sampled { start_frame: s1, end_frame: e1, sampling_rate: r1 },
                CurveDomain::Sampled { start_frame: s2, end_frame: e2, sampling_rate: r2 },
            ) => CurveDomain::Sampled {
                start_frame: min16(s1, s2),
                end_frame: max16(e1, e2),
                sampling_rate: min16(r1, r2),
            },
        }
    }

    pub fn union(self, other: CurveDomain) -> (d: CurveDomain)
        ensures
            d == self.spec_union(other),
    {
        match (self, other) {
            (CurveDomain::Empty, d) => d,
            (d, CurveDomain::Empty) => d,
            (
                CurveDomain::Sampled { start_frame: s1, end_frame: e1, sampling_rate: r1 },
                CurveDomain::Sampled { start_frame: s2, end_frame: e2, sampling_rate: r2 },
            ) => CurveDomain::Sampled {
                start_frame: if s1 <= s2 { s1 } else { s2 },
                end_frame: if e1 >= e2 { e1 } else { e2 },
                sampling_rate: if r1 <= r2 { r1 } else { r2 },
            },
        }
    }
}

/// Union of domains is commutative and associative, and has the empty
/// domain as its identity, so the domain of several curves does not depend
/// on the order they are joined in.
pub proof fn lemma_union_laws(a: CurveDomain, b: CurveDomain, c: CurveDomain)
    ensures
        a.spec_union(b) == b.spec_union(a),
        a.spec_union(b).spec_union(c) == a.spec_union(b.spec_union(c)),
        a.spec_union(CurveDomain::Empty) == a,
        CurveDomain::Empty.spec_union(a) == a,
        a.spec_union(a) == a,
{
}

} // verus!
