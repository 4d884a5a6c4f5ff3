use vstd::prelude::*;

verus! {

/// Ternary value: -1 (negative), 0 (neutral), +1 (positive).
#[derive(Clone, Copy, Debug, PartialEq, Eq, Structural, Hash)]
pub enum Ternary {
    Neg,
    Zero,
    Pos,
}

impl Ternary {
    /// The integer that the value stands for.
    pub open spec fn value(self) -> int {
        match self {
            Ternary::Neg => -1,
            Ternary::Zero => 0,
            Ternary::Pos => 1,
        }
    }

    /// The ternary value that an integer stands for, if any.
    pub open spec fn from_value(v: int) -> Option<Ternary> {
        if v == -1 {
            Some(Ternary::Neg)
        } else if v == 0 {
            Some(Ternary::Zero)
        } else if v == 1 {
            Some(Ternary::Pos)
        } else {
            None
        }
    }

    pub fn from_i8(v: i8) -> (r: Option<Self>)
        ensures
            r == Ternary::from_value(v as int),
    {
        match v {
            -1 => Some(Ternary::Neg),
            0 => Some(Ternary::Zero),
            1 => Some(Ternary::Pos),
            _ => None,
        }
    }

    /// The variant's name, as derived `Debug` prints it.
    pub open spec fn name_view(self) -> Seq<char> {
        match self {
            Ternary::Neg => "Neg"@,
            Ternary::Zero => "Zero"@,
            Ternary::Pos => "Pos"@,
        }
    }

    /// The variant's name, as derived `Debug` prints it.
    pub fn name(self) -> (r: &'static str)
        ensures
            r@ == self.name_view(),
    {
        match self {
            Ternary::Neg => "Neg",
            Ternary::Zero => "Zero",
            Ternary::Pos => "Pos",
        }
    }

    pub fn to_i8(self) -> (r: i8)
        ensures
            r == self.value(),
    {
        match self {
            Ternary::Neg => -1,
            Ternary::Zero => 0,
            Ternary::Pos => 1,
        }
    }
}

/// Severity level for warnings and signals, ordered
/// `Low < Medium < High < Critical`.
#[derive(Clone, Copy, Debug, PartialEq, Eq, Structural, PartialOrd, Ord, Hash)]
pub enum Severity {
    Low,
    Medium,
    High,
    Critical,
}

impl Severity {
    /// Position of the level in the order `Low < Medium < High < Critical`.
    pub open spec fn level(self) -> nat {
        match self {
            Severity::Low => 0,
            Severity::Medium => 1,
            Severity::High => 2,
            Severity::Critical => 3,
        }
    }

    /// The variant's name, as derived `Debug` prints it.
    pub open spec fn name_view(self) -> Seq<char> {
        match self {
            Severity::Low => "Low"@,
            Severity::Medium => "Medium"@,
            Severity::High => "High"@,
            Severity::Critical => "Critical"@,
        }
    }

    /// The larger of two levels.
    pub open spec fn max_spec(self, other: Severity) -> Severity {
        if self.level() >= other.level() {
            self
        } else {
            other
        }
    }

    /// Position of the level in the order `Low < Medium < High < Critical`.
    pub fn rank(self) -> (r: u8)
        ensures
            r == self.level(),
    {
        match self {
            Severity::Low => 0,
            Severity::Medium => 1,
            Severity::High => 2,
            Severity::Critical => 3,
        }
    }

    /// Whether `self` is at least as severe as `other`.
    pub fn at_least(self, other: Severity) -> (r: bool)
        ensures
            r == (self.level() >= other.level()),
    {
        self.rank() >= other.rank()
    }

    /// The more severe of the two levels.
    pub fn max(self, other: Severity) -> (r: Severity)
        ensures
            r == self.max_spec(other),
    {
        if self.at_least(other) {
            self
        } else {
            other
        }
    }

    /// The variant's name, as derived `Debug` prints it.
    pub fn name(self) -> (r: &'static str)
        ensures
            r@ == self.name_view(),
    {
        match self {
            Severity::Low => "Low",
            Severity::Medium => "Medium",
            Severity::High => "High",
            Severity::Critical => "Critical",
        }
    }
}

/// Reading a ternary value as an integer and back gives the value again;
/// an integer that reads as a ternary value is that value's integer, and
/// only -1, 0 and 1 read as one.
pub proof fn lemma_ternary_roundtrip(t: Ternary, v: int)
    ensures
        Ternary::from_value(t.value()) == Some(t),
        Ternary::from_value(v) matches Some(u) ==> u.value() == v,
        Ternary::from_value(v) is Some <==> -1 <= v <= 1,
{
}

/// Severity levels are totally ordered, and two levels of the same rank are
/// the same level.
pub proof fn lemma_severity_order(a: Severity, b: Severity)
    ensures
        a.level() <= b.level() || b.level() <= a.level(),
        a.level() == b.level() ==> a == b,
        a.max_spec(b).level() >= a.level(),
        a.max_spec(b).level() >= b.level(),
        a.max_spec(b) == a || a.max_spec(b) == b,
        Severity::Low.level() < Severity::Medium.level() < Severity::High.level()
            < Severity::Critical.level(),
{
}

} // verus!
