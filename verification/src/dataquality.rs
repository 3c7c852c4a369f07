use vstd::prelude::*;

verus! {

/// How much a parsed observation can be relied on. The labels are ordered
/// from `NoValue` (lowest) to `ConvertibleFuzzy` (highest).
#[derive(PartialEq, Eq, PartialOrd, Ord, Debug, Clone, Copy, Hash, Structural)]
pub enum DataQuality {
    NoValue,
    CrossReference,
    Exact,
    Multiple,
    ConvertibleConfident,
    ConvertibleFuzzy,
}

impl DataQuality {
    /// The position of the label in the order of the labels.
    pub open spec fn rank(self) -> nat {
        match self {
            DataQuality::NoValue => 0,
            DataQuality::CrossReference => 1,
            DataQuality::Exact => 2,
            DataQuality::Multiple => 3,
            DataQuality::ConvertibleConfident => 4,
            DataQuality::ConvertibleFuzzy => 5,
        }
    }

    /// The greater of two labels; `self` when both are the same.
    pub open spec fn spec_max(self, other: DataQuality) -> DataQuality {
        if other.rank() > self.rank() {
            other
        } else {
            self
        }
    }

    /// The position of the label in the order of the labels, as a number.
    pub fn level(self) -> (r: u8)
        ensures
            r == self.rank(),
    {
        match self {
            DataQuality::NoValue => 0,
            DataQuality::CrossReference => 1,
            DataQuality::Exact => 2,
            DataQuality::Multiple => 3,
            DataQuality::ConvertibleConfident => 4,
            DataQuality::ConvertibleFuzzy => 5,
        }
    }

    /// The greater of two labels.
    pub fn max(self, other: DataQuality) -> (r: DataQuality)
        ensures
            r == self.spec_max(other),
    {
        if other.level() > self.level() {
            other
        } else {
            self
        }
    }
}

impl Default for DataQuality {
    fn default() -> (r: DataQuality)
        ensures
            r == DataQuality::NoValue,
    {
        DataQuality::NoValue
    }
}

/// Two labels with the same rank are the same label, so the order of the
/// labels is total and `spec_max` is the least upper bound in it.
pub proof fn lemma_rank_injective(a: DataQuality, b: DataQuality)
    ensures
        a.rank() == b.rank() <==> a == b,
        a.spec_max(b).rank() >= a.rank(),
        a.spec_max(b).rank() >= b.rank(),
        a.spec_max(b) == a || a.spec_max(b) == b,
{
}

} // verus!
