use crate::disambiguation::Category;
use crate::textmap::precedes_from;
use vstd::prelude::*;

verus! {

/// Which eye, or both, an observation is about.
#[derive(Clone, Copy, Debug, PartialEq, Eq, Hash, Structural)]
pub enum Laterality {
    Unknown,
    OS,
    OD,
    OU,
}

impl Default for Laterality {
    fn default() -> (r: Laterality)
        ensures
            r == Laterality::Unknown,
    {
        Laterality::Unknown
    }
}

impl Category for Laterality {
    open spec fn order(self) -> nat {
        match self {
            Laterality::Unknown => 3,
            Laterality::OS => 1,
            Laterality::OD => 0,
            Laterality::OU => 2,
        }
    }

    open spec fn label(self) -> Seq<char> {
        match self {
            Laterality::Unknown => "Unknown"@,
            Laterality::OS => "OS"@,
            Laterality::OD => "OD"@,
            Laterality::OU => "OU"@,
        }
    }

    open spec fn fallback() -> Laterality {
        Laterality::Unknown
    }

    open spec fn count() -> nat {
        4
    }

    proof fn lemma_order(a: Laterality, b: Laterality) {
    }

    proof fn lemma_sorted_by_name(a: Laterality, b: Laterality) {
        reveal_strlit("Unknown");
        assert("Unknown"@ =~= seq!['U', 'n', 'k', 'n', 'o', 'w', 'n']);
        reveal_strlit("OS");
        assert("OS"@ =~= seq!['O', 'S']);
        reveal_strlit("OD");
        assert("OD"@ =~= seq!['O', 'D']);
        reveal_strlit("OU");
        assert("OU"@ =~= seq!['O', 'U']);
        reveal_with_fuel(precedes_from, 9);
    }

    fn rank(&self) -> (r: u8) {
        match self {
            Laterality::Unknown => 3,
            Laterality::OS => 1,
            Laterality::OD => 0,
            Laterality::OU => 2,
        }
    }

    fn total() -> (r: u8) {
        4
    }

    fn unknown() -> (r: Laterality) {
        Laterality::Unknown
    }

    fn to_text(&self) -> (r: String) {
        match self {
            Laterality::Unknown => "Unknown".to_owned(),
            Laterality::OS => "OS".to_owned(),
            Laterality::OD => "OD".to_owned(),
            Laterality::OU => "OU".to_owned(),
        }
    }
}

/// Whether an observation was made at near or at distance.
#[derive(Clone, Copy, Debug, PartialEq, Eq, Hash, Structural)]
pub enum DistanceOfMeasurement {
    Unknown,
    Near,
    Distance,
}

impl Default for DistanceOfMeasurement {
    fn default() -> (r: DistanceOfMeasurement)
        ensures
            r == DistanceOfMeasurement::Unknown,
    {
        DistanceOfMeasurement::Unknown
    }
}

impl Category for DistanceOfMeasurement {
    open spec fn order(self) -> nat {
        match self {
            DistanceOfMeasurement::Unknown => 2,
            DistanceOfMeasurement::Near => 1,
            DistanceOfMeasurement::Distance => 0,
        }
    }

    open spec fn label(self) -> Seq<char> {
        match self {
            DistanceOfMeasurement::Unknown => "Unknown"@,
            DistanceOfMeasurement::Near => "Near"@,
            DistanceOfMeasurement::Distance => "Distance"@,
        }
    }

    open spec fn fallback() -> DistanceOfMeasurement {
        DistanceOfMeasurement::Unknown
    }

    open spec fn count() -> nat {
        3
    }

    proof fn lemma_order(a: DistanceOfMeasurement, b: DistanceOfMeasurement) {
    }

    proof fn lemma_sorted_by_name(a: DistanceOfMeasurement, b: DistanceOfMeasurement) {
        reveal_strlit("Unknown");
        assert("Unknown"@ =~= seq!['U', 'n', 'k', 'n', 'o', 'w', 'n']);
        reveal_strlit("Near");
        assert("Near"@ =~= seq!['N', 'e', 'a', 'r']);
        reveal_strlit("Distance");
        assert("Distance"@ =~= seq!['D', 'i', 's', 't', 'a', 'n', 'c', 'e']);
        reveal_with_fuel(precedes_from, 10);
    }

    fn rank(&self) -> (r: u8) {
        match self {
            DistanceOfMeasurement::Unknown => 2,
            DistanceOfMeasurement::Near => 1,
            DistanceOfMeasurement::Distance => 0,
        }
    }

    fn total() -> (r: u8) {
        3
    }

    fn unknown() -> (r: DistanceOfMeasurement) {
        DistanceOfMeasurement::Unknown
    }

    fn to_text(&self) -> (r: String) {
        match self {
            DistanceOfMeasurement::Unknown => "Unknown".to_owned(),
            DistanceOfMeasurement::Near => "Near".to_owned(),
            DistanceOfMeasurement::Distance => "Distance".to_owned(),
        }
    }
}

/// Whether and how the eye was corrected during an observation.
#[derive(Clone, Copy, Debug, PartialEq, Eq, Hash, Structural)]
pub enum Correction {
    Unknown,
    CC,
    SC,
    Manifest,
}

impl Default for Correction {
    fn default() -> (r: Correction)
        ensures
            r == Correction::Unknown,
    {
        Correction::Unknown
    }
}

impl Category for Correction {
    open spec fn order(self) -> nat {
        match self {
            Correction::Unknown => 3,
            Correction::CC => 0,
            Correction::SC => 2,
            Correction::Manifest => 1,
        }
    }

    open spec fn label(self) -> Seq<char> {
        match self {
            Correction::Unknown => "Unknown"@,
            Correction::CC => "CC"@,
            Correction::SC => "SC"@,
            Correction::Manifest => "Manifest"@,
        }
    }

    open spec fn fallback() -> Correction {
        Correction::Unknown
    }

    open spec fn count() -> nat {
        4
    }

    proof fn lemma_order(a: Correction, b: Correction) {
    }

    proof fn lemma_sorted_by_name(a: Correction, b: Correction) {
        reveal_strlit("Unknown");
        assert("Unknown"@ =~= seq!['U', 'n', 'k', 'n', 'o', 'w', 'n']);
        reveal_strlit("CC");
        assert("CC"@ =~= seq!['C', 'C']);
        reveal_strlit("SC");
        assert("SC"@ =~= seq!['S', 'C']);
        reveal_strlit("Manifest");
        assert("Manifest"@ =~= seq!['M', 'a', 'n', 'i', 'f', 'e', 's', 't']);
        reveal_with_fuel(precedes_from, 10);
    }

    fn rank(&self) -> (r: u8) {
        match self {
            Correction::Unknown => 3,
            Correction::CC => 0,
            Correction::SC => 2,
            Correction::Manifest => 1,
        }
    }

    fn total() -> (r: u8) {
        4
    }

    fn unknown() -> (r: Correction) {
        Correction::Unknown
    }

    fn to_text(&self) -> (r: String) {
        match self {
            Correction::Unknown => "Unknown".to_owned(),
            Correction::CC => "CC".to_owned(),
            Correction::SC => "SC".to_owned(),
            Correction::Manifest => "Manifest".to_owned(),
        }
    }
}

/// Whether an observation was made through a pin-hole.
#[derive(Clone, Copy, Debug, PartialEq, Eq, Hash, Structural)]
pub enum PinHole {
    Unknown,
    With,
    Without,
}

impl Default for PinHole {
    fn default() -> (r: PinHole)
        ensures
            r == PinHole::Unknown,
    {
        PinHole::Unknown
    }
}

impl Category for PinHole {
    open spec fn order(self) -> nat {
        match self {
            PinHole::Unknown => 0,
            PinHole::With => 1,
            PinHole::Without => 2,
        }
    }

    open spec fn label(self) -> Seq<char> {
        match self {
            PinHole::Unknown => "Unknown"@,
            PinHole::With => "With"@,
            PinHole::Without => "Without"@,
        }
    }

    open spec fn fallback() -> PinHole {
        PinHole::Unknown
    }

    open spec fn count() -> nat {
        3
    }

    proof fn lemma_order(a: PinHole, b: PinHole) {
    }

    proof fn lemma_sorted_by_name(a: PinHole, b: PinHole) {
        reveal_strlit("Unknown");
        assert("Unknown"@ =~= seq!['U', 'n', 'k', 'n', 'o', 'w', 'n']);
        reveal_strlit("With");
        assert("With"@ =~= seq!['W', 'i', 't', 'h']);
        reveal_strlit("Without");
        assert("Without"@ =~= seq!['W', 'i', 't', 'h', 'o', 'u', 't']);
        reveal_with_fuel(precedes_from, 9);
    }

    fn rank(&self) -> (r: u8) {
        match self {
            PinHole::Unknown => 0,
            PinHole::With => 1,
            PinHole::Without => 2,
        }
    }

    fn total() -> (r: u8) {
        3
    }

    fn unknown() -> (r: PinHole) {
        PinHole::Unknown
    }

    fn to_text(&self) -> (r: String) {
        match self {
            PinHole::Unknown => "Unknown".to_owned(),
            PinHole::With => "With".to_owned(),
            PinHole::Without => "Without".to_owned(),
        }
    }
}

} // verus!
