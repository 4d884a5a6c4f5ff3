use vstd::prelude::*;

use crate::foghorn::{Warning, WarningView};
use crate::signal::{Severity, Ternary};
use vstd::hash_map::StringHashMap;

verus! {

/// The state of a watchkeeper: its name, the severity registered for each
/// danger, and the level from which it raises an alert.
pub struct WatchKeeperView {
    pub name: Seq<char>,
    pub dangers: Map<Seq<char>, Severity>,
    pub alert_threshold: Severity,
}

/// The message of an alert about `danger` at `severity`.
pub open spec fn danger_message(danger: Seq<char>, severity: Severity) -> Seq<char> {
    "Danger '"@ + danger + "' detected at "@ + severity.name_view() + " severity"@
}

impl WatchKeeperView {
    /// The alert raised for a danger observed at `observed`: only for a
    /// registered danger, at the more severe of the observed and registered
    /// levels, and only when that level reaches the threshold.
    pub open spec fn alert_for(self, danger: Seq<char>, observed: Severity) -> Option<WarningView> {
        if self.dangers.contains_key(danger) {
            let effective = observed.max_spec(self.dangers[danger]);
            if effective.level() >= self.alert_threshold.level() {
                Some(
                    WarningView {
                        source: self.name,
                        severity: effective,
                        message: danger_message(danger, effective),
                        ternary_signal: Ternary::Neg,
                    },
                )
            } else {
                None
            }
        } else {
            None
        }
    }

    /// The alerts raised for the observed conditions, in their order.
    pub open spec fn alerts(self, conditions: Seq<(Seq<char>, Severity)>) -> Seq<WarningView> {
        conditions.filter_map(|c: (Seq<char>, Severity)| self.alert_for(c.0, c.1))
    }
}

/// The observed conditions, each danger name by its view.
pub open spec fn condition_views(conditions: Seq<(String, Severity)>) -> Seq<(Seq<char>, Severity)> {
    conditions.map_values(|c: (String, Severity)| (c.0@, c.1))
}

/// Monitors for dangers and triggers warnings. The registered dangers are
/// kept in vstd's `StringHashMap`, a `HashMap<String, Severity>` whose view is
/// the map from each danger's name to its severity.
pub struct WatchKeeper {
    pub name: String,
    dangers: StringHashMap<Severity>,
    alert_threshold: Severity,
}

impl View for WatchKeeper {
    type V = WatchKeeperView;

    closed spec fn view(&self) -> WatchKeeperView {
        WatchKeeperView {
            name: self.name@,
            dangers: self.dangers@,
            alert_threshold: self.alert_threshold,
        }
    }
}

/// The message of an alert about `danger` at `severity`.
fn alert_message(danger: &str, severity: Severity) -> (r: String)
    ensures
        r@ == danger_message(danger@, severity),
{
    let mut m = String::from_str("Danger '");
    m.append(danger);
    m.append("' detected at ");
    m.append(severity.name());
    m.append(" severity");
    m
}

impl WatchKeeper {
    pub fn new(name: &str, alert_threshold: Severity) -> (r: Self)
        ensures
            r@ == (WatchKeeperView {
                name: name@,
                dangers: Map::empty(),
                alert_threshold,
            }),
    {
        WatchKeeper { name: name.to_owned(), dangers: StringHashMap::new(), alert_threshold }
    }

    /// Registers a danger at a severity, replacing any severity registered
    /// for it before.
    pub fn register_danger(&mut self, danger: &str, severity: Severity)
        ensures
            final(self)@ == (WatchKeeperView {
                dangers: old(self)@.dangers.insert(danger@, severity),
                ..old(self)@
            }),
    {
        self.dangers.insert(danger.to_owned(), severity);
    }

    /// Removes a danger, returning the severity it was registered at.
    pub fn remove_danger(&mut self, danger: &str) -> (r: Option<Severity>)
        ensures
            r == (if old(self)@.dangers.contains_key(danger@) {
                Some(old(self)@.dangers[danger@])
            } else {
                None
            }),
            final(self)@ == (WatchKeeperView {
                dangers: old(self)@.dangers.remove(danger@),
                ..old(self)@
            }),
    {
        let r = match self.dangers.get(danger) {
            Some(severity) => Some(*severity),
            None => None,
        };
        self.dangers.remove(danger);
        r
    }

    /// Raises an alert for each observed condition on a registered danger
    /// whose effective severity (the more severe of the observed and the
    /// registered one) reaches the alert threshold, in the order of the
    /// conditions. The conditions are meant to name each danger once, as the
    /// keys of a map do; a danger named more than once raises an alert for
    /// each of its occurrences that reaches the threshold.
    pub fn check(&self, conditions: &[(String, Severity)]) -> (r: Vec<Warning>)
        ensures
            r@.map_values(|w: Warning| w@) == self@.alerts(condition_views(conditions@)),
    {
        let ghost conds = condition_views(conditions@);
        let mut alerts: Vec<Warning> = Vec::new();
        let n = conditions.len();
        for i in 0..n
            invariant
                n == conditions@.len(),
                conds == condition_views(conditions@),
                alerts@.map_values(|w: Warning| w@) == self@.alerts(conds.take(i as int)),
        {
            assert(conds.take(i + 1).drop_last() =~= conds.take(i as int));
            assert(conds.take(i + 1).last() == (conditions@[i as int].0@, conditions@[i as int].1));
            let danger = &conditions[i].0;
            let observed = conditions[i].1;
            match self.dangers.get(danger.as_str()) {
                Some(registered) => {
                    let effective = observed.max(*registered);
                    if effective.at_least(self.alert_threshold) {
                        let w = Warning {
                            source: self.name.clone(),
                            severity: effective,
                            message: alert_message(danger.as_str(), effective),
                            ternary_signal: Ternary::Neg,
                        };
                        alerts.push(w);
                        assert(alerts@.map_values(|w: Warning| w@) =~= self@.alerts(
                            conds.take(i as int),
                        ).push(w@));
                    }
                },
                None => {},
            }
        }
        assert(conds.take(n as int) =~= conds);
        alerts
    }

    /// The watchkeeper's name.
    pub fn name(&self) -> (r: &str)
        ensures
            r@ == self@.name,
    {
        self.name.as_str()
    }

    /// The level from which the watchkeeper raises an alert.
    pub fn alert_threshold(&self) -> (r: Severity)
        ensures
            r == self@.alert_threshold,
    {
        self.alert_threshold
    }

    pub fn danger_count(&self) -> (r: usize)
        ensures
            r == self@.dangers.len(),
    {
        self.dangers.len()
    }
}

/// What a registration writes, a lookup reads back and a removal hands back;
/// a removed danger is no longer registered, and a removal undoes a
/// registration of a danger that was not registered before.
pub proof fn lemma_register_then_remove(
    dangers: Map<Seq<char>, Severity>,
    danger: Seq<char>,
    severity: Severity,
)
    ensures
        dangers.insert(danger, severity).contains_key(danger),
        dangers.insert(danger, severity)[danger] == severity,
        forall|other: Seq<char>|
            other != danger ==> #[trigger] dangers.insert(danger, severity).contains_key(other)
                == dangers.contains_key(other),
        !dangers.remove(danger).contains_key(danger),
        !dangers.contains_key(danger) ==> dangers.insert(danger, severity).remove(danger)
            == dangers,
{
    if !dangers.contains_key(danger) {
        assert(dangers.insert(danger, severity).remove(danger) =~= dangers);
    }
}

/// Registering a new danger adds one to the count and registering a known one
/// keeps it; removing a known danger takes one away and removing an unknown
/// one keeps it.
pub proof fn lemma_danger_count(dangers: Map<Seq<char>, Severity>, danger: Seq<char>, severity: Severity)
    requires
        dangers.dom().finite(),
    ensures
        dangers.insert(danger, severity).len() == if dangers.contains_key(danger) {
            dangers.len()
        } else {
            dangers.len() + 1
        },
        dangers.remove(danger).len() == if dangers.contains_key(danger) {
            dangers.len() - 1
        } else {
            dangers.len() as int
        },
{
    if !dangers.contains_key(danger) {
        assert(dangers.remove(danger) =~= dangers);
    }
}

/// Every alert is a negative signal from the watchkeeper itself, at a level
/// that reaches the threshold; there is at most one alert per observed
/// condition, and conditions on dangers that are not registered raise none.
pub proof fn lemma_alerts_properties(keeper: WatchKeeperView, conditions: Seq<(Seq<char>, Severity)>)
    ensures
        keeper.alerts(conditions).len() <= conditions.len(),
        forall|i: int|
            0 <= i < keeper.alerts(conditions).len() ==> {
                let w = #[trigger] keeper.alerts(conditions)[i];
                &&& w.ternary_signal == Ternary::Neg
                &&& w.source == keeper.name
                &&& w.severity.level() >= keeper.alert_threshold.level()
            },
        (forall|i: int|
            0 <= i < conditions.len() ==> !keeper.dangers.contains_key(#[trigger] conditions[i].0))
            ==> keeper.alerts(conditions).len() == 0,
    decreases conditions.len(),
{
    if conditions.len() > 0 {
        let rest = conditions.drop_last();
        lemma_alerts_properties(keeper, rest);
        assert(keeper.alerts(conditions) == keeper.alerts(rest) || keeper.alerts(conditions)
            == keeper.alerts(rest).push(keeper.alert_for(conditions.last().0, conditions.last().1)->0));
        if forall|i: int|
            0 <= i < conditions.len() ==> !keeper.dangers.contains_key(#[trigger] conditions[i].0) {
            assert forall|i: int| 0 <= i < rest.len() implies !keeper.dangers.contains_key(
                #[trigger] rest[i].0,
            ) by {
                assert(rest[i] == conditions[i]);
            }
            assert(!keeper.dangers.contains_key(conditions[conditions.len() - 1].0));
        }
    }
}

/// The names of the dangers in the observed conditions, in order.
pub open spec fn condition_names(conditions: Seq<(Seq<char>, Severity)>) -> Seq<Seq<char>> {
    conditions.map_values(|c: (Seq<char>, Severity)| c.0)
}

/// `conditions` observes `danger` at a level at least as severe as `observed`.
pub open spec fn observes_at_least(
    conditions: Seq<(Seq<char>, Severity)>,
    danger: Seq<char>,
    observed: Severity,
) -> bool {
    exists|j: int|
        0 <= j < conditions.len() && (#[trigger] conditions[j]).0 == danger
            && conditions[j].1.level() >= observed.level()
}

/// Observing a danger at a more severe level never withdraws its alert nor
/// lowers its severity.
pub proof fn lemma_alert_monotone(
    keeper: WatchKeeperView,
    danger: Seq<char>,
    observed: Severity,
    more: Severity,
)
    requires
        observed.level() <= more.level(),
    ensures
        keeper.alert_for(danger, observed) is Some ==> keeper.alert_for(danger, more) is Some
            && keeper.alert_for(danger, more)->0.severity.level() >= keeper.alert_for(
            danger,
            observed,
        )->0.severity.level(),
{
}

proof fn lemma_alerts_contains(
    keeper: WatchKeeperView,
    conditions: Seq<(Seq<char>, Severity)>,
    j: int,
)
    requires
        0 <= j < conditions.len(),
        keeper.alert_for(conditions[j].0, conditions[j].1) is Some,
    ensures
        keeper.alerts(conditions).contains(
            keeper.alert_for(conditions[j].0, conditions[j].1)->0,
        ),
    decreases conditions.len(),
{
    let rest = conditions.drop_last();
    if j < conditions.len() - 1 {
        assert(rest[j] == conditions[j]);
        lemma_alerts_contains(keeper, rest, j);
        let w = keeper.alert_for(conditions[j].0, conditions[j].1)->0;
        let k = choose|k: int| 0 <= k < keeper.alerts(rest).len() && keeper.alerts(rest)[k] == w;
        assert(keeper.alerts(conditions)[k] == w);
    } else {
        let all = keeper.alerts(conditions);
        assert(all[all.len() - 1] == keeper.alert_for(conditions[j].0, conditions[j].1)->0);
    }
}

proof fn lemma_alerts_remove(keeper: WatchKeeperView, conditions: Seq<(Seq<char>, Severity)>, j: int)
    requires
        0 <= j < conditions.len(),
    ensures
        keeper.alerts(conditions).len() == keeper.alerts(conditions.remove(j)).len() + if keeper.alert_for(
            conditions[j].0,
            conditions[j].1,
        ) is Some {
            1int
        } else {
            0int
        },
    decreases conditions.len(),
{
    let rest = conditions.drop_last();
    if j == conditions.len() - 1 {
        assert(conditions.remove(j) =~= rest);
    } else {
        lemma_alerts_remove(keeper, rest, j);
        assert(conditions.remove(j).drop_last() =~= rest.remove(j));
        assert(conditions.remove(j).last() == conditions.last());
        assert(rest[j] == conditions[j]);
    }
}

/// Checking more severe conditions raises at least as many alerts: when every
/// observed danger of `weaker` (each named once) is observed in `stronger` at
/// a level at least as severe, every alert about a danger under `weaker` has
/// an alert about the same danger under `stronger`, at least as severe, and
/// `stronger` raises no fewer alerts.
pub proof fn lemma_alerts_monotone(
    keeper: WatchKeeperView,
    weaker: Seq<(Seq<char>, Severity)>,
    stronger: Seq<(Seq<char>, Severity)>,
)
    requires
        condition_names(weaker).no_duplicates(),
        forall|i: int|
            0 <= i < weaker.len() ==> #[trigger] observes_at_least(
                stronger,
                weaker[i].0,
                weaker[i].1,
            ),
    ensures
        keeper.alerts(weaker).len() <= keeper.alerts(stronger).len(),
        forall|i: int|
            0 <= i < weaker.len() && (#[trigger] keeper.alert_for(weaker[i].0, weaker[i].1)) is Some
                ==> exists|j: int|
                0 <= j < stronger.len() && (#[trigger] stronger[j]).0 == weaker[i].0
                    && keeper.alert_for(stronger[j].0, stronger[j].1) is Some
                    && keeper.alerts(stronger).contains(
                    keeper.alert_for(stronger[j].0, stronger[j].1)->0,
                ) && keeper.alert_for(stronger[j].0, stronger[j].1)->0.severity.level()
                    >= keeper.alert_for(weaker[i].0, weaker[i].1)->0.severity.level(),
    decreases weaker.len(),
{
    assert forall|i: int|
        0 <= i < weaker.len() && (#[trigger] keeper.alert_for(weaker[i].0, weaker[i].1)) is Some
        implies exists|j: int|
        0 <= j < stronger.len() && (#[trigger] stronger[j]).0 == weaker[i].0 && keeper.alert_for(
            stronger[j].0,
            stronger[j].1,
        ) is Some && keeper.alerts(stronger).contains(
            keeper.alert_for(stronger[j].0, stronger[j].1)->0,
        ) && keeper.alert_for(stronger[j].0, stronger[j].1)->0.severity.level() >= keeper.alert_for(
            weaker[i].0,
            weaker[i].1,
        )->0.severity.level() by {
        assert(observes_at_least(stronger, weaker[i].0, weaker[i].1));
        let j = choose|j: int|
            0 <= j < stronger.len() && (#[trigger] stronger[j]).0 == weaker[i].0
                && stronger[j].1.level() >= weaker[i].1.level();
        lemma_alert_monotone(keeper, weaker[i].0, weaker[i].1, stronger[j].1);
        lemma_alerts_contains(keeper, stronger, j);
    }
    if weaker.len() > 0 {
        let last = weaker.last();
        let n = weaker.len() - 1;
        assert(observes_at_least(stronger, weaker[n].0, weaker[n].1));
        let j = choose|j: int|
            0 <= j < stronger.len() && (#[trigger] stronger[j]).0 == last.0 && stronger[j].1.level()
                >= last.1.level();
        let rest = weaker.drop_last();
        let others = stronger.remove(j);
        assert(condition_names(rest) =~= condition_names(weaker).drop_last());
        assert forall|i: int| 0 <= i < rest.len() implies #[trigger] observes_at_least(
            others,
            rest[i].0,
            rest[i].1,
        ) by {
            assert(rest[i] == weaker[i]);
            assert(observes_at_least(stronger, weaker[i].0, weaker[i].1));
            let k = choose|k: int|
                0 <= k < stronger.len() && (#[trigger] stronger[k]).0 == weaker[i].0
                    && stronger[k].1.level() >= weaker[i].1.level();
            assert(condition_names(weaker)[i] == weaker[i].0);
            assert(condition_names(weaker)[n] == last.0);
            assert(k != j);
            if k < j {
                assert(others[k] == stronger[k]);
            } else {
                assert(others[k - 1] == stronger[k]);
            }
        }
        lemma_alerts_monotone(keeper, rest, others);
        lemma_alerts_remove(keeper, stronger, j);
        lemma_alert_monotone(keeper, last.0, last.1, stronger[j].1);
    }
}


/// An observed danger raises an alert exactly when it is registered and either
/// the observed or the registered level reaches the threshold, whatever the
/// threshold (at `Low`, every registered danger raises one). The alert comes
/// from the keeper, is a negative signal, names the danger in its message,
/// and carries the more severe of the two levels.
pub proof fn lemma_alert_for_exact(keeper: WatchKeeperView, danger: Seq<char>, observed: Severity)
    ensures
        keeper.alert_for(danger, observed) is Some <==> keeper.dangers.contains_key(danger) && (
        observed.level() >= keeper.alert_threshold.level() || keeper.dangers[danger].level()
            >= keeper.alert_threshold.level()),
        keeper.alert_for(danger, observed) matches Some(w) ==> {
            &&& w.source == keeper.name
            &&& w.ternary_signal == Ternary::Neg
            &&& w.message == danger_message(danger, w.severity)
            &&& (w.severity == observed || w.severity == keeper.dangers[danger])
            &&& w.severity.level() >= observed.level()
            &&& w.severity.level() >= keeper.dangers[danger].level()
        },
        keeper.dangers.contains_key(danger) && keeper.alert_threshold == Severity::Low
            ==> keeper.alert_for(danger, observed) is Some,
{
}

/// Every condition that raises an alert has its alert among the results of a
/// check, and every result is the alert of some observed condition.
pub proof fn lemma_alerts_complete(keeper: WatchKeeperView, conditions: Seq<(Seq<char>, Severity)>)
    ensures
        forall|i: int|
            0 <= i < conditions.len() && (#[trigger] keeper.alert_for(
                conditions[i].0,
                conditions[i].1,
            )) is Some ==> keeper.alerts(conditions).contains(
                keeper.alert_for(conditions[i].0, conditions[i].1)->0,
            ),
        forall|w: WarningView|
            #[trigger] keeper.alerts(conditions).contains(w) ==> exists|i: int|
                0 <= i < conditions.len() && keeper.alert_for(conditions[i].0, conditions[i].1)
                    == Some(w),
{
    assert forall|i: int|
        0 <= i < conditions.len() && (#[trigger] keeper.alert_for(
            conditions[i].0,
            conditions[i].1,
        )) is Some implies keeper.alerts(conditions).contains(
        keeper.alert_for(conditions[i].0, conditions[i].1)->0,
    ) by {
        lemma_alerts_contains(keeper, conditions, i);
    }
    assert forall|w: WarningView| #[trigger] keeper.alerts(conditions).contains(w) implies exists|
        i: int,
    |
        0 <= i < conditions.len() && keeper.alert_for(conditions[i].0, conditions[i].1) == Some(
            w,
        ) by {
        let f = |c: (Seq<char>, Severity)| keeper.alert_for(c.0, c.1);
        conditions.lemma_filter_map_contains(f, w);
        let t = choose|t: (Seq<char>, Severity)| #[trigger] conditions.contains(t) && f(t) == Some(w);
        let i = choose|i: int| 0 <= i < conditions.len() && conditions[i] == t;
        assert(keeper.alert_for(conditions[i].0, conditions[i].1) == Some(w));
    }
}

} // verus!
