//! Call quality ratings. The measurements and the mean opinion score they
//! are rated from are floating-point values and stay outside this library.
use vstd::prelude::*;

verus! {

/// Quality rating categories
#[derive(Debug, Clone, Copy, PartialEq, Eq, Structural)]
pub enum QualityRating {
    /// MOS >= 4.3 - Excellent quality
    Excellent,
    /// MOS >= 4.0 - Good quality
    Good,
    /// MOS >= 3.6 - Fair quality (acceptable)
    Fair,
    /// MOS >= 3.1 - Poor quality
    Poor,
    /// MOS < 3.1 - Bad quality
    Bad,
}

impl QualityRating {
    /// The rating's name.
    pub open spec fn spec_name(self) -> Seq<char> {
        match self {
            QualityRating::Excellent => "Excellent"@,
            QualityRating::Good => "Good"@,
            QualityRating::Fair => "Fair"@,
            QualityRating::Poor => "Poor"@,
            QualityRating::Bad => "Bad"@,
        }
    }

    pub fn as_str(&self) -> (r: &'static str)
        ensures
            r@ == self.spec_name(),
    {
        match self {
            QualityRating::Excellent => "Excellent",
            QualityRating::Good => "Good",
            QualityRating::Fair => "Fair",
            QualityRating::Poor => "Poor",
            QualityRating::Bad => "Bad",
        }
    }
}

} // verus!
