use vstd::prelude::*;

use crate::signal::{Severity, Ternary};

verus! {

/// A warning issued by a foghorn or a watchkeeper.
#[derive(Clone, Debug, PartialEq)]
pub struct Warning {
    pub source: String,
    pub severity: Severity,
    pub message: String,
    pub ternary_signal: Ternary,
}

/// What a warning says, with its texts as character sequences.
pub struct WarningView {
    pub source: Seq<char>,
    pub severity: Severity,
    pub message: Seq<char>,
    pub ternary_signal: Ternary,
}

impl View for Warning {
    type V = WarningView;

    open spec fn view(&self) -> WarningView {
        WarningView {
            source: self.source@,
            severity: self.severity,
            message: self.message@,
            ternary_signal: self.ternary_signal,
        }
    }
}

/// Audible warning for low-visibility conditions.
#[derive(Clone, Debug)]
pub struct Foghorn {
    pub name: String,
    pub active: bool,
    severity: Severity,
    message: String,
}

/// The state of a foghorn, with its texts as character sequences.
pub struct FoghornView {
    pub name: Seq<char>,
    pub active: bool,
    pub severity: Severity,
    pub message: Seq<char>,
}

impl FoghornView {
    /// The warning that a foghorn in this state sounds: always a negative
    /// (trouble) signal, whatever the severity.
    pub open spec fn warning(self) -> WarningView {
        WarningView {
            source: self.name,
            severity: self.severity,
            message: self.message,
            ternary_signal: Ternary::Neg,
        }
    }
}

impl View for Foghorn {
    type V = FoghornView;

    closed spec fn view(&self) -> FoghornView {
        FoghornView {
            name: self.name@,
            active: self.active,
            severity: self.severity,
            message: self.message@,
        }
    }
}

impl Foghorn {
    /// A new foghorn is active.
    pub fn new(name: &str, severity: Severity, message: &str) -> (r: Self)
        ensures
            r@ == (FoghornView { name: name@, active: true, severity, message: message@ }),
    {
        Foghorn { name: name.to_owned(), active: true, severity, message: message.to_owned() }
    }

    pub fn sound(&self) -> (r: Warning)
        ensures
            r@ == self@.warning(),
    {
        let ternary_signal = match self.severity {
            Severity::Low => Ternary::Neg,
            Severity::Medium => Ternary::Neg,
            Severity::High => Ternary::Neg,
            Severity::Critical => Ternary::Neg,
        };
        Warning {
            source: self.name.clone(),
            severity: self.severity,
            message: self.message.clone(),
            ternary_signal,
        }
    }

    /// The foghorn's name.
    pub fn name(&self) -> (r: &str)
        ensures
            r@ == self@.name,
    {
        self.name.as_str()
    }

    /// Whether the foghorn sounds.
    pub fn is_active(&self) -> (r: bool)
        ensures
            r == self@.active,
    {
        self.active
    }

    /// Switches the foghorn on or off, leaving everything else as it was.
    pub fn set_active(&mut self, active: bool)
        ensures
            final(self)@ == (FoghornView { active, ..old(self)@ }),
    {
        self.active = active;
    }

    pub fn set_severity(&mut self, severity: Severity)
        ensures
            final(self)@ == (FoghornView { severity, ..old(self)@ }),
    {
        self.severity = severity;
    }
}

/// The warnings that the active foghorns among `foghorns` sound, in order.
pub open spec fn active_warnings(foghorns: Seq<FoghornView>) -> Seq<WarningView> {
    foghorns.filter_map(|f: FoghornView| if f.active { Some(f.warning()) } else { None })
}

/// Sounds every active foghorn, in order; inactive ones stay silent.
pub fn sound_active(foghorns: &[Foghorn]) -> (r: Vec<Warning>)
    ensures
        r@.map_values(|w: Warning| w@) == active_warnings(
            foghorns@.map_values(|f: Foghorn| f@),
        ),
{
    let ghost fs = foghorns@.map_values(|f: Foghorn| f@);
    let mut out: Vec<Warning> = Vec::new();
    let n = foghorns.len();
    for i in 0..n
        invariant
            n == foghorns@.len(),
            fs == foghorns@.map_values(|f: Foghorn| f@),
            out@.map_values(|w: Warning| w@) == active_warnings(fs.take(i as int)),
    {
        assert(fs.take(i + 1).drop_last() =~= fs.take(i as int));
        assert(fs.take(i + 1).last() == foghorns@[i as int]@);
        if foghorns[i].active {
            let w = foghorns[i].sound();
            out.push(w);
            assert(out@.map_values(|w: Warning| w@) =~= active_warnings(fs.take(i as int)).push(w@));
        }
    }
    assert(fs.take(n as int) =~= fs);
    out
}

/// Every warning sounded is a negative (trouble) signal; there is one warning
/// per active foghorn, so none when every foghorn is silenced, and one for
/// each foghorn when all are active.
pub proof fn lemma_active_warnings(foghorns: Seq<FoghornView>)
    ensures
        active_warnings(foghorns).len() <= foghorns.len(),
        forall|i: int|
            0 <= i < active_warnings(foghorns).len() ==> (#[trigger] active_warnings(
                foghorns,
            )[i]).ternary_signal == Ternary::Neg,
        (forall|i: int| 0 <= i < foghorns.len() ==> !(#[trigger] foghorns[i]).active)
            ==> active_warnings(foghorns).len() == 0,
        (forall|i: int| 0 <= i < foghorns.len() ==> (#[trigger] foghorns[i]).active)
            ==> active_warnings(foghorns) == foghorns.map_values(|f: FoghornView| f.warning()),
    decreases foghorns.len(),
{
    if foghorns.len() > 0 {
        let rest = foghorns.drop_last();
        lemma_active_warnings(rest);
        assert forall|i: int| 0 <= i < rest.len() implies #[trigger] rest[i] == foghorns[i] by {}
        if forall|i: int| 0 <= i < foghorns.len() ==> (#[trigger] foghorns[i]).active {
            assert(foghorns[foghorns.len() - 1].active);
            assert(forall|i: int| 0 <= i < rest.len() ==> (#[trigger] rest[i]).active);
            assert(active_warnings(foghorns) =~= foghorns.map_values(|f: FoghornView| f.warning()));
        }
        if forall|i: int| 0 <= i < foghorns.len() ==> !(#[trigger] foghorns[i]).active {
            assert(!foghorns[foghorns.len() - 1].active);
            assert(forall|i: int| 0 <= i < rest.len() ==> !(#[trigger] rest[i]).active);
        }
    }
}


/// A foghorn's warning carries its own name, severity and message, as a
/// negative signal.
pub proof fn lemma_warning_fields(f: FoghornView)
    ensures
        f.warning().source == f.name,
        f.warning().severity == f.severity,
        f.warning().message == f.message,
        f.warning().ternary_signal == Ternary::Neg,
{
}

} // verus!
