use vstd::prelude::*;

verus! {

/// A 3x3 convolution kernel with rational weights.
///
/// Weight `i` (row-major, `i == row * 3 + col`) stands for
/// `weights[i] / divisor`. Holding the weights as integer numerators over a
/// common positive divisor keeps the weighted sums exact: a box blur is nine
/// weights of 1 over a divisor of 9, a sharpen kernel has divisor 1.
#[derive(Clone, Copy, Debug, PartialEq, Eq)]
pub struct Kernel {
    weights: [i32; 9],
    divisor: u32,
}

impl Kernel {
    #[verifier::type_invariant]
    spec fn inv(self) -> bool {
        self.divisor > 0
    }

    /// The nine weight numerators, row-major.
    pub closed spec fn spec_weights(self) -> Seq<int> {
        self.weights@.map_values(|w: i32| w as int)
    }

    /// The common divisor of the weights.
    pub closed spec fn spec_divisor(self) -> int {
        self.divisor as int
    }

    /// Builds a kernel from nine row-major numerators and their common
    /// divisor; there is none for a divisor of zero.
    pub fn new(weights: [i32; 9], divisor: u32) -> (r: Option<Kernel>)
        ensures
            divisor == 0 <==> r is None,
            r matches Some(k) ==> k.spec_weights() == weights@.map_values(|w: i32| w as int)
                && k.spec_divisor() == divisor as int,
    {
        if divisor == 0 {
            None
        } else {
            Some(Kernel { weights, divisor })
        }
    }

    /// The numerator of weight `i`.
    pub fn weight(&self, i: usize) -> (r: i32)
        requires
            i < 9,
        ensures
            r as int == self.spec_weights()[i as int],
    {
        self.weights[i]
    }

    /// The common divisor, which is never zero.
    pub fn divisor(&self) -> (r: u32)
        ensures
            r as int == self.spec_divisor(),
            r > 0,
    {
        proof {
            use_type_invariant(self);
        }
        self.divisor
    }

    /// The weight count is fixed at nine.
    pub proof fn lemma_nine_weights(self)
        ensures
            self.spec_weights().len() == 9,
    {
    }
}

} // verus!
